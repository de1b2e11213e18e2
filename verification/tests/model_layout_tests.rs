use std::rc::Rc;

use nvim_gtk::ui_model::highlight::Highlight;
use nvim_gtk::ui_model::model_layout::{HighlightedRange, ModelLayout};

#[test]
fn test_count_lines() {
    let lines = vec![vec![HighlightedRange {
        highlight: Rc::new(Highlight::new()),
        graphemes: vec!["a".to_owned(); 5],
    }]];

    let rows = ModelLayout::count_lines(&lines, 4);
    assert_eq!(2, rows);
}

fn five_a_lines(n: usize) -> Vec<Vec<HighlightedRange>> {
    let mut lines = Vec::new();
    for _ in 0..n {
        lines.push(vec![HighlightedRange {
            highlight: Rc::new(Highlight::new()),
            graphemes: vec!["a".to_owned(); 5],
        }]);
    }
    lines
}

#[test]
fn test_resize() {
    let mut model = ModelLayout::new(5);

    model.layout(five_a_lines(ModelLayout::ROWS_STEP));
    let (cols, rows) = model.size();
    assert_eq!(5, cols);
    assert_eq!(ModelLayout::ROWS_STEP, rows);

    model.layout_append(five_a_lines(ModelLayout::ROWS_STEP));
    let (cols, rows) = model.size();
    assert_eq!(5, cols);
    assert_eq!(ModelLayout::ROWS_STEP * 2, rows);
    assert_eq!(ModelLayout::ROWS_STEP * 2, model.model.rows);
}

fn one_line(n: usize, g: &str) -> Vec<Vec<HighlightedRange>> {
    vec![vec![HighlightedRange::new(Rc::new(Highlight::new()), vec![g.to_owned(); n])]]
}

#[test]
fn test_cols_filled() {
    let mut model = ModelLayout::new(5);

    model.layout(one_line(3, "a"));
    // cursor is not moved by newgrid api
    // so set it manual
    model.set_cursor(3);
    let (cols, _) = model.size();
    assert_eq!(4, cols); // size is 3 and 4 - is with cursor position

    model.layout_append(one_line(2, "a"));
    model.set_cursor(2);
    let (cols, _) = model.size();
    assert_eq!(3, cols);
}

#[test]
fn test_insert_shift() {
    let mut model = ModelLayout::new(5);
    model.layout(one_line(3, "a"));
    model.set_cursor(1);

    model.insert_char("b".to_owned(), true, Rc::new(Highlight::new()));

    let (cols, _) = model.size();
    assert_eq!(4, cols);
    assert_eq!("b", model.model.model()[0].line[1].ch);
}

#[test]
fn test_insert_no_shift() {
    let mut model = ModelLayout::new(5);
    model.layout(one_line(3, "a"));
    model.set_cursor(1);

    model.insert_char("b".to_owned(), false, Rc::new(Highlight::new()));

    let (cols, _) = model.size();
    assert_eq!(3, cols);
    assert_eq!("b", model.model.model()[0].line[1].ch);
}

#[test]
fn test_double_width() {
    let mut model = ModelLayout::new(7);
    model.layout(one_line(3, "あ"));
    model.set_cursor(1);

    let (cols, rows) = model.size();
    assert_eq!(1, rows);
    assert_eq!(6, cols);
}

#[test]
fn long_line_wraps_to_next_row() {
    let mut model = ModelLayout::new(4);
    model.layout(one_line(6, "x"));
    let (cols, rows) = model.size();
    assert_eq!(2, rows);
    assert_eq!(4, cols);
    assert_eq!("x", model.model.model()[1].line[1].ch);
    assert_eq!("", model.model.model()[1].line[2].ch);
}

#[test]
fn try_layout_refuses_lines_that_overflow_the_model() {
    // Twenty graphemes one column wide are estimated at eleven rows: more than the ten rows of
    // the model, which cannot grow while no row is filled.
    let mut model = ModelLayout::new(1);
    assert!(!model.try_layout(one_line(20, "x")));
    assert_eq!((1, 0), model.size());
    assert!(model.try_layout(one_line(3, "x")));
    assert_eq!((1, 2), model.size());
}

#[test]
fn try_insert_char_empty_is_a_no_op() {
    let mut model = ModelLayout::new(5);
    model.layout(one_line(3, "a"));
    assert!(model.try_insert_char(String::new(), true, Rc::new(Highlight::new())));
    assert_eq!("a", model.model.model()[0].line[0].ch);
}
