use std::rc::Rc;

use nvim_gtk::ui_model::highlight::Highlight;
use nvim_gtk::ui_model::line::{style_runs, Line, StyleAttr, StyledLine, TextItem};

fn abc_line() -> Line {
    let mut line = Line::new(3);
    line.line[0].ch = "a".to_owned();
    line.line[1].ch = "b".to_owned();
    line.line[2].ch = "c".to_owned();
    line
}

fn settle(line: &mut Line) {
    line.dirty_line = false;
    for cell in line.line.iter_mut() {
        cell.dirty = false;
    }
}

#[test]
fn test_styled_line() {
    let line = abc_line();

    let styled_line = StyledLine::from(&line);
    assert_eq!("abc", styled_line.line_str);
    assert_eq!(3, styled_line.cell_to_byte.len());
    assert_eq!(0, styled_line.cell_to_byte[0]);
    assert_eq!(1, styled_line.cell_to_byte[1]);
    assert_eq!(2, styled_line.cell_to_byte[2]);
}

#[test]
fn styled_line_spaces_blanks_and_skips_second_halves() {
    let mut line = Line::new(4);
    line.line[0].ch = "é".to_owned();
    line.line[2].ch = "字".to_owned();
    line.line[3].double_width = true;

    let styled_line = StyledLine::from(&line);
    assert_eq!("é 字", styled_line.line_str);
    assert_eq!(vec![0, 0, 1, 2, 2, 2], styled_line.cell_to_byte);
}

#[test]
fn new_line_is_blank_and_unbound() {
    let line = Line::new(2);
    assert_eq!(2, line.line.len());
    assert!(line.dirty_line);
    assert_eq!(vec![-1, -1], line.cell_to_item);
    assert!(line.item_line.iter().all(|items| items.is_empty()));
    assert!(!line.is_binded_to_item(0));
}

#[test]
fn merge_binds_one_run_to_its_first_cell() {
    let mut line = abc_line();
    let styled_line = StyledLine::from(&line);
    settle(&mut line);

    line.merge(&styled_line, &[TextItem { offset: 0, length: 3 }]);

    assert_eq!(vec![0, 0, 0], line.cell_to_item);
    assert_eq!(vec![3], line.item_line[0]);
    assert!(line.item_line[1].is_empty());
    assert!(line.item_line[2].is_empty());
    assert!(line.dirty_line);
    assert!(line.line.iter().all(|cell| cell.dirty));
    assert_eq!(3, line.item_len_from_idx(0));
}

#[test]
fn merge_twice_changes_nothing_the_second_time() {
    let mut line = abc_line();
    let styled_line = StyledLine::from(&line);
    let items = [TextItem { offset: 0, length: 1 }, TextItem { offset: 1, length: 2 }];
    line.merge(&styled_line, &items);
    settle(&mut line);

    line.merge(&styled_line, &items);

    assert!(!line.dirty_line);
    assert_eq!(vec![0, 1, 1], line.cell_to_item);
    assert_eq!(vec![1], line.item_line[0]);
    assert_eq!(vec![2], line.item_line[1]);
    assert!(line.line.iter().all(|cell| !cell.dirty));
}

#[test]
fn merge_renews_items_of_a_group_with_a_dirty_cell() {
    let mut line = abc_line();
    let styled_line = StyledLine::from(&line);
    let items = [TextItem { offset: 0, length: 3 }];
    line.merge(&styled_line, &items);
    settle(&mut line);
    line.line[2].dirty = true;

    line.merge(&styled_line, &items);

    assert!(line.dirty_line);
    assert!(line.line[0].dirty);
    assert!(!line.line[1].dirty);
    assert_eq!(vec![0, 0, 0], line.cell_to_item);
}

#[test]
fn merge_unbinds_cells_in_no_run() {
    let mut line = abc_line();
    let styled_line = StyledLine::from(&line);
    line.merge(&styled_line, &[TextItem { offset: 0, length: 3 }]);
    settle(&mut line);

    line.merge(&styled_line, &[TextItem { offset: 0, length: 1 }]);

    assert_eq!(vec![0, -1, -1], line.cell_to_item);
    assert_eq!(vec![1], line.item_line[0]);
    assert!(line.item_line[1].is_empty());
    assert!(line.dirty_line);
    assert!(line.line[0].dirty && line.line[1].dirty && line.line[2].dirty);
}

#[test]
fn merge_groups_runs_that_share_a_cell() {
    let mut line = Line::new(2);
    line.line[0].ch = "é".to_owned();
    line.line[1].ch = "x".to_owned();
    let styled_line = StyledLine::from(&line);
    settle(&mut line);

    line.merge(&styled_line, &[TextItem { offset: 0, length: 1 }, TextItem { offset: 1, length: 2 }]);

    assert_eq!(vec![0, 0], line.cell_to_item);
    assert_eq!(vec![2, 2], line.item_line[0]);
    assert!(line.item_line[1].is_empty());
}

#[test]
fn clear_blanks_cells_with_highlight() {
    let mut line = abc_line();
    settle(&mut line);
    let hl = Rc::new(Highlight::new());

    line.clear(1, 2, &hl);

    assert_eq!("a", line.line[0].ch);
    assert!(line.line[1].ch.is_empty() && line.line[2].ch.is_empty());
    assert!(line.line[1].dirty && line.line[2].dirty);
    assert!(!line.line[0].dirty);
    assert!(line.dirty_line);
}

fn run(r: &StyleAttr) -> (bool, bool, Option<u32>, Option<u32>, usize, usize) {
    (r.italic, r.bold, r.foreground, r.background, r.start_idx, r.end_idx)
}

#[test]
fn style_runs_split_where_the_style_changes() {
    let mut line = Line::new(3);
    line.line[0].ch = "a".to_owned();
    line.line[1].ch = "b".to_owned();
    let mut bold = Highlight::new();
    bold.bold = true;
    line.line[0].hl = Rc::new(bold);
    let runs = style_runs(&line, &vec![(None, None); 3]);
    let runs: Vec<_> = runs.iter().map(run).collect();
    assert_eq!(runs, vec![(false, true, None, None, 0, 1), (false, false, None, None, 1, 3)]);
}

#[test]
fn style_runs_join_blanks_and_split_on_colors() {
    let mut line = Line::new(4);
    line.line[2].ch = "é".to_owned();
    line.line[3].ch = "x".to_owned();
    let colors = vec![(Some(1), None), (Some(2), Some(3)), (Some(1), None), (Some(1), Some(9))];
    let runs: Vec<_> = style_runs(&line, &colors).iter().map(run).collect();
    assert_eq!(
        runs,
        vec![(false, false, Some(1), None, 0, 4), (false, false, Some(1), Some(9), 4, 5)]
    );
}

#[test]
fn style_attr_next_extends_or_starts_a_run() {
    let mut cell_line = Line::new(1);
    cell_line.line[0].ch = "a".to_owned();
    let mut cur = StyleAttr::from(0, 1, &cell_line.line[0], None, None);
    assert!(!cur.empty && !cur.space);
    assert!(cur.next(1, 2, &cell_line.line[0], None, None).is_none());
    assert_eq!(cur.end_idx, 2);
    let started = cur.next(2, 3, &cell_line.line[0], Some(7), None).unwrap();
    assert_eq!(run(&started), (false, false, Some(7), None, 2, 3));
    assert_eq!(cur.end_idx, 2);
    assert!(StyleAttr::new().empty);
}
