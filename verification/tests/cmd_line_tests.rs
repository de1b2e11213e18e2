use std::rc::Rc;

use nvim_gtk::cmd_line::{attributed_line, cmdline_lines, lines_of, prompt_lines, Level};
use nvim_gtk::ui_model::model_layout::HighlightedRange;
use nvim_gtk::ui_model::highlight::Highlight;

fn graphemes(lines: &[(Rc<Highlight>, Vec<String>)]) -> Vec<Vec<&str>> {
    lines.iter().map(|l| l.1.iter().map(|g| g.as_str()).collect()).collect()
}

#[test]
fn first_char_is_padded_to_the_indent() {
    let hl = Rc::new(Highlight::new());
    let (offset, lines) = prompt_lines(":", "ignored", 3, &hl);
    assert_eq!(offset, 3);
    assert_eq!(graphemes(&lines), vec![vec![":", " ", " "]]);
    let (offset, lines) = prompt_lines("/", "", 0, &hl);
    assert_eq!(offset, 1);
    assert_eq!(graphemes(&lines), vec![vec!["/"]]);
}

#[test]
fn prompt_is_split_into_lines_of_graphemes() {
    let hl = Rc::new(Highlight::new());
    let (offset, lines) = prompt_lines("", "Pick:\ne\u{301}x\n", 0, &hl);
    assert_eq!(offset, 2);
    assert_eq!(graphemes(&lines), vec![vec!["P", "i", "c", "k", ":"], vec!["e\u{301}", "x"]]);
    assert_eq!(*lines[0].0, Highlight::new());
    assert_eq!(prompt_lines("", "", 4, &hl), (0, vec![]));
}

#[test]
fn lines_match_std_lines() {
    for text in ["", "a", "a\n", "\n", "a\r\nb", "a\n\nb\r", "foo\r\nbar\n\nbaz\r", "\r\n", "x\ry"] {
        let expected: Vec<String> = text.lines().map(|l| l.to_owned()).collect();
        assert_eq!(lines_of(text), expected, "{:?}", text);
    }
}

fn bold() -> Rc<Highlight> {
    let mut hl = Highlight::new();
    hl.bold = true;
    Rc::new(hl)
}

fn range_graphemes(lines: &[Vec<HighlightedRange>]) -> Vec<Vec<Vec<&str>>> {
    lines.iter().map(|l| l.iter().map(|r| r.graphemes.iter().map(|g| g.as_str()).collect()).collect()).collect()
}

fn row_text(level: &Level, row: usize) -> String {
    level.model_layout.model.model()[row].line.iter().map(|c| c.ch.as_str()).collect()
}

#[test]
fn attributed_line_splits_text_into_graphemes() {
    let line = attributed_line(&vec![(bold(), "ab".to_owned()), (Rc::new(Highlight::new()), "e\u{301}".to_owned())]);
    assert!(line[0].highlight.bold && !line[1].highlight.bold);
    assert_eq!(range_graphemes(&[line]), vec![vec![vec!["a", "b"], vec!["e\u{301}"]]]);
}

#[test]
fn cmdline_lines_append_content_to_the_last_prompt_line() {
    let hl = Rc::new(Highlight::new());
    let content = attributed_line(&vec![(bold(), "ls".to_owned())]);
    let (lines, offset) = cmdline_lines("", "Dir:\nName: ", 0, &hl, content);
    assert_eq!(offset, 6);
    assert_eq!(
        range_graphemes(&lines),
        vec![vec![vec!["D", "i", "r", ":"]], vec![vec!["N", "a", "m", "e", ":", " "], vec!["l", "s"]]]
    );
    assert!(lines[1][1].highlight.bold && !lines[1][0].highlight.bold);
}

#[test]
fn cmdline_lines_without_prompt_show_the_content_alone() {
    let hl = Rc::new(Highlight::new());
    let content = attributed_line(&vec![(bold(), "wq".to_owned())]);
    let (lines, offset) = cmdline_lines("", "", 0, &hl, content);
    assert_eq!(offset, 0);
    assert_eq!(range_graphemes(&lines), vec![vec![vec!["w", "q"]]]);
}

#[test]
fn level_from_ctx_puts_the_cursor_after_the_prompt() {
    let hl = Rc::new(Highlight::new());
    let content = attributed_line(&vec![(hl.clone(), "set".to_owned())]);
    let level = Level::from_ctx(":", "", 0, &hl, content, 2, 20).unwrap();
    assert_eq!(level.prompt_offset, 1);
    assert_eq!(row_text(&level, 0), ":set");
    assert_eq!(level.model_layout.model.get_cursor(), (0, 3));
}

#[test]
fn level_replace_and_append_lines() {
    let hl = Rc::new(Highlight::new());
    let mut level = Level::from_lines(vec![attributed_line(&vec![(hl.clone(), "one".to_owned())])], 10).unwrap();
    assert_eq!(level.prompt_offset, 0);
    assert!(level.replace_line(vec![attributed_line(&vec![(hl.clone(), "two".to_owned())])], true));
    assert_eq!(row_text(&level, 0), "one");
    assert_eq!(row_text(&level, 1), "two");
    assert!(level.replace_line(vec![attributed_line(&vec![(hl.clone(), "new".to_owned())])], false));
    assert_eq!(row_text(&level, 0), "new");
}

#[test]
fn level_insert_types_at_the_cursor() {
    let hl = Rc::new(Highlight::new());
    let content = attributed_line(&vec![(hl.clone(), "ab".to_owned())]);
    let mut level = Level::from_ctx("/", "", 0, &hl, content, 1, 10).unwrap();
    assert!(level.insert("x".to_owned(), true, &hl));
    assert_eq!(row_text(&level, 0), "/axb");
    level.set_cursor(0);
    assert!(level.insert("y".to_owned(), false, &hl));
    assert_eq!(row_text(&level, 0), "/yxb");
}
