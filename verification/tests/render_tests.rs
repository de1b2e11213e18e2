use std::rc::Rc;

use nvim_gtk::render::{plan_row_bg, plan_row_fmt, plan_snapshot, CellColors, RenderStep, RenderStepKind, COLOR_RED};
use nvim_gtk::ui_model::highlight::Highlight;
use nvim_gtk::ui_model::line::Line;

fn colors(fg: u32, bg: Option<u32>) -> CellColors {
    CellColors { fg, bg, sp: None }
}

fn step(kind: RenderStepKind, color: u32, len: usize, pos: (usize, usize)) -> RenderStep {
    RenderStep { color, kind, len, pos }
}

#[test]
fn background_runs_become_one_step() {
    let row = vec![colors(1, Some(5)), colors(1, Some(5)), colors(1, Some(0)), colors(1, Some(7)), colors(1, None)];
    let mut steps = Vec::new();
    plan_row_bg(&mut steps, &row, 0, 2);
    assert_eq!(
        steps,
        vec![step(RenderStepKind::Background, 5, 2, (2, 0)), step(RenderStepKind::Background, 7, 1, (2, 3))]
    );
}

#[test]
fn background_step_open_at_row_end_is_kept() {
    let mut steps = vec![step(RenderStepKind::Background, 9, 1, (0, 0))];
    plan_row_bg(&mut steps, &vec![colors(1, Some(4)), colors(1, Some(4))], 0, 1);
    assert_eq!(
        steps,
        vec![step(RenderStepKind::Background, 9, 1, (0, 0)), step(RenderStepKind::Background, 4, 2, (1, 0))]
    );
}

#[test]
fn strikethrough_and_underline_runs() {
    let mut line = Line::new(4);
    let mut struck = Highlight::new();
    struck.strikethrough = true;
    let mut struck_underlined = struck;
    struck_underlined.underline = true;
    let mut undercurled = Highlight::new();
    undercurled.undercurl = true;
    line.line[0].hl = Rc::new(struck);
    line.line[1].hl = Rc::new(struck_underlined);
    line.line[2].hl = Rc::new(struck_underlined);
    line.line[3].hl = Rc::new(undercurled);
    let row = vec![colors(1, None), colors(1, None), colors(2, None), colors(3, None)];

    let mut ops = Vec::new();
    plan_row_fmt(&mut ops, &line, &row, 0);

    assert_eq!(
        ops,
        vec![
            step(RenderStepKind::Strikethrough, 1, 2, (0, 0)),
            step(RenderStepKind::Underline, 1, 1, (0, 1)),
            step(RenderStepKind::Strikethrough, 2, 1, (0, 2)),
            step(RenderStepKind::Underline, 2, 1, (0, 2)),
            step(RenderStepKind::Undercurl, COLOR_RED, 1, (0, 3)),
        ]
    );
}

#[test]
fn underline_uses_the_special_color() {
    let mut line = Line::new(2);
    let mut underlined = Highlight::new();
    underlined.underline = true;
    line.line[0].hl = Rc::new(underlined);
    line.line[1].hl = Rc::new(underlined);
    let row = vec![CellColors { fg: 1, bg: None, sp: Some(8) }, CellColors { fg: 2, bg: None, sp: Some(8) }];
    let mut ops = Vec::new();
    plan_row_fmt(&mut ops, &line, &row, 0);
    assert_eq!(ops, vec![step(RenderStepKind::Underline, 8, 2, (0, 0))]);
}

#[test]
fn grid_plan_keeps_runs_within_rows() {
    let mut a = Line::new(2);
    let mut b = Line::new(2);
    let mut struck = Highlight::new();
    struck.strikethrough = true;
    a.line[1].hl = Rc::new(struck);
    b.line[0].hl = Rc::new(struck);
    let colors = vec![vec![colors(1, Some(3)), colors(1, Some(3))], vec![colors(1, Some(3)), colors(1, None)]];
    let (bg, fmt) = plan_snapshot(&[a, b], &colors, 0);
    assert_eq!(
        bg,
        vec![step(RenderStepKind::Background, 3, 2, (0, 0)), step(RenderStepKind::Background, 3, 1, (1, 0))]
    );
    assert_eq!(
        fmt,
        vec![step(RenderStepKind::Strikethrough, 1, 1, (0, 1)), step(RenderStepKind::Strikethrough, 1, 1, (1, 0))]
    );
}
