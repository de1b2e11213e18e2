//! Wraps highlighted lines of graphemes into a `UiModel`, growing it as lines are added.

use std::rc::Rc;

use vstd::prelude::*;

use super::highlight::{default_highlight, Highlight};
use super::line::{cleared_line, fresh_line};
use super::{fresh_model, real_cursor_col, with_cell, written_cell, ModelView, UiModel};

verus! {

/// The display width in columns that `unicode-width` gives a string.
pub uninterp spec fn text_width(s: Seq<char>) -> usize;

/// The display width of `s` in columns (unicode-width's `UnicodeWidthStr::width`).
#[verifier::external_body]
fn str_width(s: &str) -> (r: usize)
    ensures
        r == text_width(s@),
{
    unicode_width::UnicodeWidthStr::width(s)
}

/// A run of graphemes drawn with one highlight.
#[derive(Debug)]
pub struct HighlightedRange {
    pub highlight: Rc<Highlight>,
    pub graphemes: Vec<String>,
}

/// What a range holds: its highlight and its graphemes as characters.
pub struct RangeView {
    pub highlight: Highlight,
    pub graphemes: Seq<Seq<char>>,
}

impl View for HighlightedRange {
    type V = RangeView;

    open spec fn view(&self) -> RangeView {
        RangeView { highlight: *self.highlight, graphemes: self.graphemes@.map_values(|g: String| g@) }
    }
}

/// One line of the layout: its ranges in order.
pub type HighlightedLine = Vec<HighlightedRange>;

/// The ranges of each line.
pub open spec fn lines_view(ls: Seq<HighlightedLine>) -> Seq<Seq<RangeView>> {
    ls.map_values(|l: HighlightedLine| l@.map_values(|r: HighlightedRange| r@))
}

/// The entries of a table of widths, by line, range and grapheme.
pub open spec fn table_view(t: Seq<Vec<Vec<usize>>>) -> Seq<Seq<Seq<usize>>> {
    t.map_values(|a: Vec<Vec<usize>>| a@.map_values(|b: Vec<usize>| b@))
}

/// The display width of every grapheme, by line, range and grapheme.
pub open spec fn widths_of(ls: Seq<Seq<RangeView>>) -> Seq<Seq<Seq<usize>>> {
    ls.map_values(|l: Seq<RangeView>| l.map_values(|r: RangeView| r.graphemes.map_values(|g: Seq<char>| text_width(g))))
}

/// `ws` gives one width per grapheme of `ls`.
pub open spec fn widths_fit(ws: Seq<Seq<Seq<usize>>>, ls: Seq<Seq<RangeView>>) -> bool {
    &&& ws.len() == ls.len()
    &&& forall|i: int| 0 <= i < ls.len() ==> (#[trigger] ws[i]).len() == ls[i].len()
    &&& forall|i: int, j: int| 0 <= i < ls.len() && 0 <= j < ls[i].len() ==> (#[trigger] ws[i][j]).len() == ls[i][j].graphemes.len()
}

impl HighlightedRange {
    pub fn new(highlight: Rc<Highlight>, graphemes: Vec<String>) -> (r: Self)
        ensures
            r.highlight == highlight,
            r.graphemes == graphemes,
    {
        HighlightedRange { highlight, graphemes }
    }
}

/// The number of graphemes in the first `n` ranges of a line.
pub open spec fn grapheme_count(l: Seq<RangeView>, n: int) -> int
    decreases n,
{
    if n <= 0 {
        0
    } else {
        grapheme_count(l, n - 1) + l[n - 1].graphemes.len()
    }
}

/// The rows that lines `[from, to)` take by the layout's estimate: a line of `len` graphemes
/// takes `len / (columns + 1) + 1` rows.
pub open spec fn rows_needed(ls: Seq<Seq<RangeView>>, columns: int, from: int, to: int) -> int
    decreases to - from,
{
    if to <= from {
        0
    } else {
        rows_needed(ls, columns, from, to - 1) + grapheme_count(ls[to - 1], ls[to - 1].len() as int) / (columns + 1) + 1
    }
}

/// Counting lines `[from, to)` stays within `usize`.
pub open spec fn counts_fit(ls: Seq<Seq<RangeView>>, columns: int, from: int, to: int) -> bool {
    &&& columns < usize::MAX
    &&& rows_needed(ls, columns, from, to) <= usize::MAX
    &&& forall|i: int| from <= i < to ==> grapheme_count(#[trigger] ls[i], ls[i].len() as int) <= usize::MAX
}

proof fn lemma_grapheme_count_monotone(l: Seq<RangeView>, k: int, n: int)
    requires
        0 <= k <= n,
    ensures
        grapheme_count(l, k) <= grapheme_count(l, n),
    decreases n - k,
{
    if k < n {
        lemma_grapheme_count_monotone(l, k, n - 1);
    }
}

proof fn lemma_rows_needed_monotone(ls: Seq<Seq<RangeView>>, columns: int, from: int, k: int, to: int)
    requires
        from <= k <= to,
        columns >= 0,
    ensures
        0 <= rows_needed(ls, columns, from, k) <= rows_needed(ls, columns, from, to),
    decreases to - from,
{
    if k < to {
        lemma_rows_needed_monotone(ls, columns, from, k, to - 1);
        let g = grapheme_count(ls[to - 1], ls[to - 1].len() as int);
        lemma_grapheme_count_monotone(ls[to - 1], 0, ls[to - 1].len() as int);
        assert(g / (columns + 1) >= 0) by (nonlinear_arith)
            requires
                g >= 0,
                columns >= 0,
        ;
    } else if from < to {
        lemma_rows_needed_monotone(ls, columns, from, from, to - 1);
        let g = grapheme_count(ls[to - 1], ls[to - 1].len() as int);
        lemma_grapheme_count_monotone(ls[to - 1], 0, ls[to - 1].len() as int);
        assert(g / (columns + 1) >= 0) by (nonlinear_arith)
            requires
                g >= 0,
                columns >= 0,
        ;
    }
}

/// The number of graphemes in a line.
fn line_grapheme_count(line: &HighlightedLine) -> (r: usize)
    requires
        grapheme_count(line@.map_values(|r: HighlightedRange| r@), line@.len() as int) <= usize::MAX,
    ensures
        r == grapheme_count(line@.map_values(|r: HighlightedRange| r@), line@.len() as int),
{
    let ghost l = line@.map_values(|r: HighlightedRange| r@);
    let mut len: usize = 0;
    let mut j: usize = 0;
    while j < line.len()
        invariant
            j <= line@.len(),
            l == line@.map_values(|r: HighlightedRange| r@),
            len == grapheme_count(l, j as int),
            grapheme_count(l, line@.len() as int) <= usize::MAX,
        decreases line@.len() - j,
    {
        proof {
            lemma_grapheme_count_monotone(l, j + 1, line@.len() as int);
        }
        assert(l[j as int].graphemes.len() == line@[j as int].graphemes@.len());
        len = len + line[j].graphemes.len();
        j = j + 1;
    }
    len
}

impl ModelLayout {
    /// The rows the lines take when wrapped at `max_columns`, by the estimate
    /// `graphemes / (max_columns + 1) + 1` per line.
    pub fn count_lines(lines: &[HighlightedLine], max_columns: usize) -> (r: usize)
        requires
            counts_fit(lines_view(lines@), max_columns as int, 0, lines@.len() as int),
        ensures
            r == rows_needed(lines_view(lines@), max_columns as int, 0, lines@.len() as int),
    {
        let ghost ls = lines_view(lines@);
        let mut row_count: usize = 0;
        let mut i: usize = 0;
        while i < lines.len()
            invariant
                i <= lines@.len(),
                ls == lines_view(lines@),
                counts_fit(ls, max_columns as int, 0, lines@.len() as int),
                row_count == rows_needed(ls, max_columns as int, 0, i as int),
            decreases lines@.len() - i,
        {
            proof {
                lemma_rows_needed_monotone(ls, max_columns as int, 0, i + 1, lines@.len() as int);
            }
            assert(ls[i as int] == lines@[i as int]@.map_values(|r: HighlightedRange| r@));
            let len = line_grapheme_count(&lines[i]);
            row_count = row_count + len / (max_columns + 1) + 1;
            i = i + 1;
        }
        row_count
    }
}

/// Lines of highlighted graphemes wrapped into a model that grows by steps of rows.
#[derive(Debug)]
pub struct ModelLayout {
    pub model: UiModel,
    rows_filled: usize,
    cols_filled: usize,
    lines: Vec<HighlightedLine>,
}

/// What a layout holds.
pub struct LayoutView {
    pub model: ModelView,
    pub rows_filled: usize,
    pub cols_filled: usize,
    pub lines: Seq<Seq<RangeView>>,
}

/// `l` with the cursor at column `col` of its last filled row (the first row where none is
/// filled).
pub open spec fn cursor_at(l: LayoutView, col: usize) -> LayoutView {
    LayoutView {
        model: ModelView {
            cur_row: if l.rows_filled > 0 { (l.rows_filled - 1) as usize } else { 0 },
            cur_col: col,
            ..l.model
        },
        ..l
    }
}

/// An empty layout `columns` wide.
pub open spec fn empty_layout(columns: usize) -> LayoutView {
    LayoutView { model: fresh_model(ModelLayout::ROWS_STEP, columns), rows_filled: 0, cols_filled: 0, lines: Seq::empty() }
}

impl View for ModelLayout {
    type V = LayoutView;

    closed spec fn view(&self) -> LayoutView {
        LayoutView {
            model: self.model.view_model(),
            rows_filled: self.rows_filled,
            cols_filled: self.cols_filled,
            lines: lines_view(self.lines@),
        }
    }
}


/// Where the layout stands while it places graphemes: the model written so far, the next
/// column and row, the largest column counted as filled, and whether every step so far
/// stayed within the model and within `usize`.
pub struct Placement {
    pub model: ModelView,
    pub col: int,
    pub row: int,
    pub max_col: int,
    pub ok: bool,
}

/// The columns a grapheme of display width `w` takes: at least one.
pub open spec fn cell_width(w: usize) -> int {
    if w == 0 {
        1
    } else {
        w as int
    }
}

/// Places one grapheme: wrap to the next row when it does not fit, then write it; a grapheme
/// wider than one column leaves an empty double-width cell.
pub open spec fn place_grapheme(p: Placement, g: Seq<char>, w: usize, hl: Highlight) -> Placement {
    let cw = cell_width(w);
    let wrap = p.col + cw > p.model.columns;
    let col = if wrap { 0 } else { p.col };
    let row = if wrap { p.row + 1 } else { p.row };
    let cell = if cw > 1 { written_cell(Seq::empty(), true, hl) } else { written_cell(g, false, hl) };
    Placement {
        model: with_cell(p.model, row, col, cell),
        col: col + cw,
        row,
        max_col: if p.max_col < col { col + cw - 1 } else { p.max_col },
        ok: p.ok && p.col + cw <= usize::MAX && row < p.model.rows && col < p.model.columns,
    }
}

/// Places the first `n` graphemes of a range.
pub open spec fn place_graphemes(p: Placement, gs: Seq<Seq<char>>, ws: Seq<usize>, hl: Highlight, n: int) -> Placement
    decreases n,
{
    if n <= 0 {
        p
    } else {
        place_grapheme(place_graphemes(p, gs, ws, hl, n - 1), gs[n - 1], ws[n - 1], hl)
    }
}

/// After a range, the rest of its row is blanked with the default highlight.
pub open spec fn end_range(p: Placement) -> Placement {
    if p.col < p.model.columns {
        Placement {
            model: ModelView {
                lines: p.model.lines.update(
                    p.row,
                    cleared_line(p.model.lines[p.row], p.col, p.model.columns - 1, default_highlight()),
                ),
                ..p.model
            },
            ok: p.ok && p.row < p.model.rows,
            ..p
        }
    } else {
        p
    }
}

/// Places a whole range.
pub open spec fn place_range(p: Placement, r: RangeView, ws: Seq<usize>) -> Placement {
    end_range(place_graphemes(p, r.graphemes, ws, r.highlight, r.graphemes.len() as int))
}

/// Places the first `n` ranges of a line.
pub open spec fn place_ranges(p: Placement, rs: Seq<RangeView>, ws: Seq<Seq<usize>>, n: int) -> Placement
    decreases n,
{
    if n <= 0 {
        p
    } else {
        place_range(place_ranges(p, rs, ws, n - 1), rs[n - 1], ws[n - 1])
    }
}

/// A line ends: the next one starts at the first column of the next row.
pub open spec fn next_row(p: Placement) -> Placement {
    Placement { col: 0, row: p.row + 1, ok: p.ok && p.row + 1 <= usize::MAX, ..p }
}

/// Places a whole line.
pub open spec fn place_line(p: Placement, l: Seq<RangeView>, ws: Seq<Seq<usize>>) -> Placement {
    next_row(place_ranges(p, l, ws, l.len() as int))
}

/// Places lines `[from, to)`.
pub open spec fn place_lines(p: Placement, ls: Seq<Seq<RangeView>>, ws: Seq<Seq<Seq<usize>>>, from: int, to: int) -> Placement
    decreases to - from,
{
    if to <= from {
        p
    } else {
        place_line(place_lines(p, ls, ws, from, to - 1), ls[to - 1], ws[to - 1])
    }
}

proof fn lemma_graphemes_ok(p: Placement, gs: Seq<Seq<char>>, ws: Seq<usize>, hl: Highlight, k: int, n: int)
    requires
        0 <= k <= n,
        place_graphemes(p, gs, ws, hl, n).ok,
    ensures
        place_graphemes(p, gs, ws, hl, k).ok,
    decreases n - k,
{
    if k < n {
        lemma_graphemes_ok(p, gs, ws, hl, k, n - 1);
    }
}

proof fn lemma_ranges_ok(p: Placement, rs: Seq<RangeView>, ws: Seq<Seq<usize>>, k: int, n: int)
    requires
        0 <= k <= n,
        place_ranges(p, rs, ws, n).ok,
    ensures
        place_ranges(p, rs, ws, k).ok,
    decreases n - k,
{
    if k < n {
        let q = place_ranges(p, rs, ws, n - 1);
        lemma_graphemes_ok(q, rs[n - 1].graphemes, ws[n - 1], rs[n - 1].highlight, 0, rs[n - 1].graphemes.len() as int);
        lemma_ranges_ok(p, rs, ws, k, n - 1);
    }
}

proof fn lemma_lines_ok(p: Placement, ls: Seq<Seq<RangeView>>, ws: Seq<Seq<Seq<usize>>>, from: int, k: int, to: int)
    requires
        from <= k <= to,
        place_lines(p, ls, ws, from, to).ok,
    ensures
        place_lines(p, ls, ws, from, k).ok,
    decreases to - k,
{
    if k < to {
        let q = place_lines(p, ls, ws, from, to - 1);
        lemma_ranges_ok(q, ls[to - 1], ws[to - 1], 0, ls[to - 1].len() as int);
        lemma_lines_ok(p, ls, ws, from, k, to - 1);
    }
}

/// Places the graphemes of `range` from column `col` of row `row` and blanks the rest of the
/// row; gives the next column, the row and the largest filled column.
fn place_range_into(model: &mut UiModel, range: &HighlightedRange, ws: &Vec<usize>, col: usize, row: usize, max_col: usize) -> (r: (usize, usize, usize))
    requires
        old(model).wf(),
        ws@.len() == range.graphemes@.len(),
        max_col < usize::MAX,
        place_range(Placement { model: old(model).view_model(), col: col as int, row: row as int, max_col: max_col as int, ok: true }, range@, ws@).ok,
    ensures
        final(model).wf(),
        r.2 < usize::MAX,
        ({
            let p = place_range(Placement { model: old(model).view_model(), col: col as int, row: row as int, max_col: max_col as int, ok: true }, range@, ws@);
            p.model == final(model).view_model() && p.col == r.0 && p.row == r.1 && p.max_col == r.2
        }),
{
    let ghost p0 = Placement { model: model.view_model(), col: col as int, row: row as int, max_col: max_col as int, ok: true };
    let ghost rv = range@;
    let ghost hl: Highlight = *range.highlight;
    let n = range.graphemes.len();
    proof {
        lemma_graphemes_ok(p0, rv.graphemes, ws@, hl, n as int, n as int);
    }
    let mut col_idx = col;
    let mut row_idx = row;
    let mut max_col_idx = max_col;
    let mut k: usize = 0;
    while k < n
        invariant
            k <= n,
            n == range.graphemes@.len(),
            n == ws@.len(),
            rv == range@,
            hl == rv.highlight,
            model.wf(),
            max_col_idx < usize::MAX,
            place_graphemes(p0, rv.graphemes, ws@, hl, n as int).ok,
            ({
                let c = place_graphemes(p0, rv.graphemes, ws@, hl, k as int);
                c.model == model.view_model() && c.col == col_idx && c.row == row_idx && c.max_col == max_col_idx && c.ok
            }),
        decreases n - k,
    {
        proof {
            lemma_graphemes_ok(p0, rv.graphemes, ws@, hl, k + 1, n as int);
        }
        let ghost c = place_graphemes(p0, rv.graphemes, ws@, hl, k as int);
        let w = ws[k];
        let ch_width: usize = if w < 1 { 1 } else { w };
        if col_idx + ch_width > model.columns {
            col_idx = 0;
            row_idx = row_idx + 1;
        }
        assert(range.graphemes@[k as int]@ == rv.graphemes[k as int]);
        model.put_one(row_idx, col_idx, range.graphemes[k].as_str(), false, crate::shared::rc_clone(&range.highlight));
        if ch_width > 1 {
            let ghost m1 = model.view_model();
            model.put_one(row_idx, col_idx, "", true, crate::shared::rc_clone(&range.highlight));
            proof {
                reveal_strlit("");
                let cell = written_cell(Seq::empty(), true, hl);
                assert(""@ =~= Seq::<char>::empty());
                assert(model.view_model().lines[row_idx as int].cells =~= c.model.lines[row_idx as int].cells.update(col_idx as int, cell));
                assert(model.view_model().lines =~= with_cell(c.model, row_idx as int, col_idx as int, cell).lines);
            }
        }
        if max_col_idx < col_idx {
            max_col_idx = col_idx + ch_width - 1;
        }
        col_idx = col_idx + ch_width;
        k = k + 1;
    }
    if col_idx < model.columns {
        let default_hl = Rc::new(Highlight::new());
        model.clear_row(row_idx, col_idx, model.columns - 1, &default_hl);
    }
    (col_idx, row_idx, max_col_idx)
}

/// The ranges of a line.
pub open spec fn line_view(l: HighlightedLine) -> Seq<RangeView> {
    l@.map_values(|r: HighlightedRange| r@)
}

/// The widths of a line, by range and grapheme.
pub open spec fn line_widths_view(ws: Vec<Vec<usize>>) -> Seq<Seq<usize>> {
    ws@.map_values(|b: Vec<usize>| b@)
}

/// Places a whole line from column `col` of row `row`; gives the next column, the row and the
/// largest filled column.
fn place_line_into(model: &mut UiModel, line: &HighlightedLine, ws: &Vec<Vec<usize>>, col: usize, row: usize, max_col: usize) -> (r: (usize, usize, usize))
    requires
        old(model).wf(),
        ws@.len() == line@.len(),
        forall|j: int| 0 <= j < line@.len() ==> (#[trigger] ws@[j])@.len() == line@[j].graphemes@.len(),
        max_col < usize::MAX,
        place_line(Placement { model: old(model).view_model(), col: col as int, row: row as int, max_col: max_col as int, ok: true }, line_view(*line), line_widths_view(*ws)).ok,
    ensures
        final(model).wf(),
        r.2 < usize::MAX,
        ({
            let p = place_line(Placement { model: old(model).view_model(), col: col as int, row: row as int, max_col: max_col as int, ok: true }, line_view(*line), line_widths_view(*ws));
            p.model == final(model).view_model() && p.col == r.0 && p.row == r.1 && p.max_col == r.2
        }),
{
    let ghost p0 = Placement { model: model.view_model(), col: col as int, row: row as int, max_col: max_col as int, ok: true };
    let ghost lv = line_view(*line);
    let ghost wv = line_widths_view(*ws);
    let n = line.len();
    proof {
        lemma_ranges_ok(p0, lv, wv, n as int, n as int);
    }
    let mut col_idx = col;
    let mut row_idx = row;
    let mut max_col_idx = max_col;
    let mut j: usize = 0;
    while j < n
        invariant
            j <= n,
            n == line@.len(),
            n == ws@.len(),
            lv == line_view(*line),
            wv == line_widths_view(*ws),
            forall|j: int| 0 <= j < line@.len() ==> (#[trigger] ws@[j])@.len() == line@[j].graphemes@.len(),
            model.wf(),
            max_col_idx < usize::MAX,
            place_ranges(p0, lv, wv, n as int).ok,
            ({
                let c = place_ranges(p0, lv, wv, j as int);
                c.model == model.view_model() && c.col == col_idx && c.row == row_idx && c.max_col == max_col_idx && c.ok
            }),
        decreases n - j,
    {
        proof {
            lemma_ranges_ok(p0, lv, wv, j + 1, n as int);
        }
        let ghost c = place_ranges(p0, lv, wv, j as int);
        assert(c == Placement { model: model.view_model(), col: col_idx as int, row: row_idx as int, max_col: max_col_idx as int, ok: true });
        assert(lv[j as int] == line@[j as int]@);
        assert(wv[j as int] == ws@[j as int]@);
        let (c1, r1, m1) = place_range_into(model, &line[j], &ws[j], col_idx, row_idx, max_col_idx);
        col_idx = c1;
        row_idx = r1;
        max_col_idx = m1;
        j = j + 1;
    }
    (0, row_idx + 1, max_col_idx)
}

/// The model rows allocated for `rows` rows of layout: a whole number of steps.
pub open spec fn model_rows_for(rows: int) -> int {
    (rows / (ModelLayout::ROWS_STEP + 1) + 1) * ModelLayout::ROWS_STEP
}

/// `m` replaced by a fresh model of `model_rows_for(rows)` rows that keeps rows `0..=keep`
/// and the cursor as drawn.
pub open spec fn grown_model(m: ModelView, rows: int, keep: int) -> ModelView {
    ModelView {
        rows: model_rows_for(rows) as usize,
        cur_col: real_cursor_col(m),
        lines: Seq::new(
            model_rows_for(rows) as nat,
            |n: int| if n <= keep { m.lines[n] } else { fresh_line(m.columns as nat) },
        ),
        ..m
    }
}

/// The model once it has room for `rows` rows: grown only when it has fewer.
pub open spec fn sized_model(l: LayoutView, rows: int) -> ModelView {
    if rows > l.model.rows {
        grown_model(l.model, rows, l.rows_filled - 1)
    } else {
        l.model
    }
}

/// Growing the model for `rows` rows stays within `usize` and copies only existing rows.
pub open spec fn growth_ok(l: LayoutView, rows: int) -> bool {
    rows > l.model.rows ==> {
        &&& model_rows_for(rows) <= usize::MAX
        &&& 1 <= l.rows_filled
        &&& l.rows_filled - 1 < l.model.rows
        &&& l.rows_filled - 1 < model_rows_for(rows)
    }
}

/// The rows that lines `take_from..` take by the estimate.
pub open spec fn rows_of_tail(l: LayoutView, take_from: int) -> int {
    rows_needed(l.lines, l.model.columns as int, take_from, l.lines.len() as int)
}

/// The placement of lines `take_from..` from row `row_offset`, in the model sized for them.
pub open spec fn placed(l: LayoutView, row_offset: int, take_from: int, ws: Seq<Seq<Seq<usize>>>) -> Placement {
    place_lines(
        Placement { model: sized_model(l, rows_of_tail(l, take_from) + row_offset), col: 0, row: row_offset, max_col: 0, ok: true },
        l.lines,
        ws,
        take_from,
        l.lines.len() as int,
    )
}

/// Laying out lines `take_from..` from row `row_offset` neither indexes out of bounds nor
/// overflows.
pub open spec fn replace_ok(l: LayoutView, row_offset: int, take_from: int, ws: Seq<Seq<Seq<usize>>>) -> bool {
    &&& 0 <= take_from <= l.lines.len()
    &&& counts_fit(l.lines, l.model.columns as int, take_from, l.lines.len() as int)
    &&& rows_of_tail(l, take_from) + row_offset <= usize::MAX
    &&& growth_ok(l, rows_of_tail(l, take_from) + row_offset)
    &&& placed(l, row_offset, take_from, ws).ok
}

/// The layout after lines `take_from..` are wrapped into the model from row `row_offset`:
/// the rows filled are those rows plus the offset, and the filled width is the widest placed
/// column (kept from before unless exactly one row is filled).
pub open spec fn replaced(l: LayoutView, row_offset: int, take_from: int, ws: Seq<Seq<Seq<usize>>>) -> LayoutView {
    let p = placed(l, row_offset, take_from, ws);
    let filled = rows_of_tail(l, take_from) + row_offset;
    LayoutView {
        model: p.model,
        rows_filled: filled as usize,
        cols_filled: if filled == 1 || l.cols_filled < p.max_col + 1 { (p.max_col + 1) as usize } else { l.cols_filled },
        lines: l.lines,
    }
}

/// `l` with its lines replaced by `lines`.
pub open spec fn with_lines(l: LayoutView, lines: Seq<Seq<RangeView>>) -> LayoutView {
    LayoutView { lines, ..l }
}

/// The layout with grapheme `g` inserted into its first line at the cursor column as drawn.
pub open spec fn with_inserted(l: LayoutView, g: Seq<char>) -> LayoutView {
    with_lines(l, l.lines.update(0, inserted_from(l.lines[0], real_cursor_col(l.model) as int, g, 0)))
}

/// Inserting `g` with shifting and laying out again neither indexes out of bounds nor
/// overflows.
pub open spec fn insert_shift_ok(l: LayoutView, g: Seq<char>) -> bool {
    &&& l.lines.len() > 0
    &&& grapheme_count(l.lines[0], l.lines[0].len() as int) <= usize::MAX
    &&& replace_ok(with_inserted(l, g), 0, 0, widths_of(with_inserted(l, g).lines))
}

/// The line with grapheme `g` inserted at position `at`, counted from the start of range `i`
/// on: in the first range from `i` on that reaches past `at`; unchanged when none does.
pub open spec fn inserted_from(rs: Seq<RangeView>, at: int, g: Seq<char>, i: int) -> Seq<RangeView>
    decreases rs.len() - i,
{
    if i < 0 || i >= rs.len() {
        rs
    } else if at < grapheme_count(rs, i + 1) {
        rs.update(i, RangeView { graphemes: rs[i].graphemes.insert(at - grapheme_count(rs, i), g), ..rs[i] })
    } else {
        inserted_from(rs, at, g, i + 1)
    }
}

proof fn lemma_rows_needed_subrange(ls: Seq<Seq<RangeView>>, columns: int, a: int, b: int, k: int)
    requires
        0 <= a <= b <= ls.len(),
        0 <= k <= b - a,
    ensures
        rows_needed(ls.subrange(a, b), columns, 0, k) == rows_needed(ls, columns, a, a + k),
    decreases k,
{
    if k > 0 {
        lemma_rows_needed_subrange(ls, columns, a, b, k - 1);
        assert(ls.subrange(a, b)[k - 1] == ls[a + k - 1]);
    }
}

proof fn lemma_widths_of_fit(ls: Seq<Seq<RangeView>>)
    ensures
        widths_fit(widths_of(ls), ls),
{
}

/// The display width of each grapheme of a range.
fn range_widths(range: &HighlightedRange) -> (r: Vec<usize>)
    ensures
        r@ == range@.graphemes.map_values(|g: Seq<char>| text_width(g)),
{
    let mut r: Vec<usize> = Vec::new();
    let mut k: usize = 0;
    while k < range.graphemes.len()
        invariant
            k <= range.graphemes@.len(),
            r@.len() == k,
            forall|m: int| 0 <= m < k ==> #[trigger] r@[m] == text_width(range.graphemes@[m]@),
        decreases range.graphemes@.len() - k,
    {
        r.push(str_width(range.graphemes[k].as_str()));
        k = k + 1;
    }
    assert(r@ =~= range@.graphemes.map_values(|g: Seq<char>| text_width(g)));
    r
}

/// The display width of each grapheme, by line, range and grapheme.
fn widths_of_lines(lines: &Vec<HighlightedLine>) -> (r: Vec<Vec<Vec<usize>>>)
    ensures
        table_view(r@) == widths_of(lines_view(lines@)),
{
    let ghost target = widths_of(lines_view(lines@));
    let mut r: Vec<Vec<Vec<usize>>> = Vec::new();
    let mut i: usize = 0;
    while i < lines.len()
        invariant
            i <= lines@.len(),
            target == widths_of(lines_view(lines@)),
            r@.len() == i,
            forall|m: int| 0 <= m < i ==> (#[trigger] r@[m])@.map_values(|b: Vec<usize>| b@) == target[m],
        decreases lines@.len() - i,
    {
        let mut lw: Vec<Vec<usize>> = Vec::new();
        let mut j: usize = 0;
        while j < lines[i].len()
            invariant
                i < lines@.len(),
                j <= lines@[i as int]@.len(),
                target == widths_of(lines_view(lines@)),
                lw@.len() == j,
                forall|m: int| 0 <= m < j ==> #[trigger] lw@[m]@ == target[i as int][m],
            decreases lines@[i as int]@.len() - j,
        {
            let rw = range_widths(&lines[i][j]);
            assert(lines_view(lines@)[i as int][j as int] == lines@[i as int]@[j as int]@);
            lw.push(rw);
            j = j + 1;
        }
        assert(lw@.map_values(|b: Vec<usize>| b@) =~= target[i as int]);
        r.push(lw);
        i = i + 1;
    }
    assert forall|m: int| 0 <= m < r@.len() implies #[trigger] table_view(r@)[m] == target[m] by {}
    assert(table_view(r@) =~= target);
    r
}

impl ModelLayout {
    pub const ROWS_STEP: usize = 10;

    /// The model is consistent.
    pub closed spec fn wf(&self) -> bool {
        self.model.wf()
    }

    /// An empty layout over a model of one step of rows of `columns` cells.
    pub fn new(columns: u64) -> (r: Self)
        requires
            columns <= usize::MAX,
        ensures
            r.wf(),
            r@ == empty_layout(columns as usize),
    {
        let r = ModelLayout { model: UiModel::new(ModelLayout::ROWS_STEP as u64, columns), rows_filled: 0, cols_filled: 0, lines: Vec::new() };
        assert(lines_view(r.lines@) =~= Seq::<Seq<RangeView>>::empty());
        r
    }

    /// Grows the model when it has fewer than `rows` rows.
    fn check_model_size(&mut self, rows: usize)
        requires
            old(self).wf(),
            growth_ok(old(self)@, rows as int),
        ensures
            final(self).wf(),
            final(self)@ == (LayoutView { model: sized_model(old(self)@, rows as int), ..old(self)@ }),
    {
        if rows > self.model.rows {
            let ghost m0 = self.model.view_model();
            let model_cols = self.model.columns;
            let model_rows = ((rows / (ModelLayout::ROWS_STEP + 1)) + 1) * ModelLayout::ROWS_STEP;
            let (cur_row, cur_col) = self.model.get_real_cursor();
            let mut model = UiModel::new(model_rows as u64, model_cols as u64);
            self.model.swap_rows(&mut model, self.rows_filled - 1);
            model.set_cursor(cur_row, cur_col);
            assert(model.view_model().lines =~= grown_model(m0, rows as int, self.rows_filled - 1).lines);
            self.model = model;
        }
    }

    /// Wraps lines `take_from..` into the model from row `row_offset`, given the display width
    /// of every grapheme of the layout.
    pub fn layout_replace_with_widths(&mut self, row_offset: usize, take_from: usize, widths: &Vec<Vec<Vec<usize>>>)
        requires
            old(self).wf(),
            widths_fit(table_view(widths@), old(self)@.lines),
            replace_ok(old(self)@, row_offset as int, take_from as int, table_view(widths@)),
        ensures
            final(self).wf(),
            final(self)@ == replaced(old(self)@, row_offset as int, take_from as int, table_view(widths@)),
    {
        let ghost l0 = self@;
        let ghost ws = table_view(widths@);
        let n = self.lines.len();
        proof {
            lemma_rows_needed_subrange(l0.lines, l0.model.columns as int, take_from as int, n as int, n - take_from);
            assert(lines_view(self.lines@.subrange(take_from as int, n as int)) =~= l0.lines.subrange(take_from as int, n as int));
        }
        let rows = ModelLayout::count_lines(vstd::slice::slice_subrange(self.lines.as_slice(), take_from, n), self.model.columns);
        self.check_model_size(rows + row_offset);
        self.rows_filled = rows + row_offset;
        let ghost p0 = Placement { model: self.model.view_model(), col: 0, row: row_offset as int, max_col: 0, ok: true };
        assert(placed(l0, row_offset as int, take_from as int, ws) == place_lines(p0, l0.lines, ws, take_from as int, n as int));
        let mut max_col_idx: usize = 0;
        let mut col_idx: usize = 0;
        let mut row_idx: usize = row_offset;
        let mut i: usize = take_from;
        while i < n
            invariant
                take_from <= i <= n,
                n == self.lines@.len(),
                lines_view(self.lines@) == l0.lines,
                ws == table_view(widths@),
                widths_fit(ws, l0.lines),
                self.model.wf(),
                max_col_idx < usize::MAX,
                self.rows_filled == rows + row_offset,
                self.cols_filled == l0.cols_filled,
                place_lines(p0, l0.lines, ws, take_from as int, n as int).ok,
                ({
                    let c = place_lines(p0, l0.lines, ws, take_from as int, i as int);
                    c.model == self.model.view_model() && c.col == col_idx && c.row == row_idx && c.max_col == max_col_idx && c.ok
                }),
            decreases n - i,
        {
            proof {
                lemma_lines_ok(p0, l0.lines, ws, take_from as int, i + 1, n as int);
            }
            let ghost c = place_lines(p0, l0.lines, ws, take_from as int, i as int);
            assert(c == Placement { model: self.model.view_model(), col: col_idx as int, row: row_idx as int, max_col: max_col_idx as int, ok: true });
            assert(l0.lines[i as int] == line_view(self.lines@[i as int]));
            assert(ws[i as int] == line_widths_view(widths@[i as int]));
            assert forall|j: int| 0 <= j < self.lines@[i as int]@.len() implies (#[trigger] widths@[i as int]@[j])@.len() == self.lines@[i as int]@[j].graphemes@.len() by {
                assert(ws[i as int][j] == widths@[i as int]@[j]@);
                assert(l0.lines[i as int][j] == self.lines@[i as int]@[j]@);
            }
            let (c1, r1, m1) = place_line_into(&mut self.model, &self.lines[i], &widths[i], col_idx, row_idx, max_col_idx);
            col_idx = c1;
            row_idx = r1;
            max_col_idx = m1;
            i = i + 1;
        }
        if self.rows_filled == 1 {
            self.cols_filled = max_col_idx + 1;
        } else if self.cols_filled < max_col_idx + 1 {
            self.cols_filled = max_col_idx + 1;
        }
    }
}

impl ModelLayout {
    /// Wraps lines `take_from..` into the model from row `row_offset`.
    fn layout_replace(&mut self, row_offset: usize, take_from: usize)
        requires
            old(self).wf(),
            replace_ok(old(self)@, row_offset as int, take_from as int, widths_of(old(self)@.lines)),
        ensures
            final(self).wf(),
            final(self)@ == replaced(old(self)@, row_offset as int, take_from as int, widths_of(old(self)@.lines)),
    {
        let widths = widths_of_lines(&self.lines);
        proof {
            lemma_widths_of_fit(self@.lines);
        }
        self.layout_replace_with_widths(row_offset, take_from, &widths);
    }

    /// Appends `lines` and wraps them below the rows already filled.
    pub fn layout_append(&mut self, lines: Vec<HighlightedLine>)
        requires
            old(self).wf(),
            replace_ok(
                with_lines(old(self)@, old(self)@.lines + lines_view(lines@)),
                old(self)@.rows_filled as int,
                old(self)@.lines.len() as int,
                widths_of(old(self)@.lines + lines_view(lines@)),
            ),
        ensures
            final(self).wf(),
            final(self)@ == replaced(
                with_lines(old(self)@, old(self)@.lines + lines_view(lines@)),
                old(self)@.rows_filled as int,
                old(self)@.lines.len() as int,
                widths_of(old(self)@.lines + lines_view(lines@)),
            ),
    {
        let mut lines = lines;
        let rows_filled = self.rows_filled;
        let take_from = self.lines.len();
        let ghost added = lines_view(lines@);
        self.lines.append(&mut lines);
        assert(lines_view(self.lines@) =~= old(self)@.lines + added);
        self.layout_replace(rows_filled, take_from);
    }

    /// Replaces the lines by `lines` and wraps them from the first row.
    pub fn layout(&mut self, lines: Vec<HighlightedLine>)
        requires
            old(self).wf(),
            replace_ok(with_lines(old(self)@, lines_view(lines@)), 0, 0, widths_of(lines_view(lines@))),
        ensures
            final(self).wf(),
            final(self)@ == replaced(with_lines(old(self)@, lines_view(lines@)), 0, 0, widths_of(lines_view(lines@))),
    {
        self.lines = lines;
        self.layout_replace(0, 0);
    }

    /// Puts the cursor at column `col` of the last filled row.
    pub fn set_cursor(&mut self, col: usize)
        ensures
            final(self).wf() == old(self).wf(),
            final(self)@ == cursor_at(old(self)@, col),
    {
        let row = if self.rows_filled > 0 {
            self.rows_filled - 1
        } else {
            0
        };
        self.model.set_cursor(row, col);
    }

    /// The width and height the layout takes: the filled width, widened to the column after
    /// the cursor, and the rows filled.
    pub fn size(&self) -> (r: (usize, usize))
        requires
            self.wf(),
            real_cursor_col(self@.model) < usize::MAX,
        ensures
            (r.0 as int, r.1 as int) == layout_size(self@),
    {
        let c = self.model.get_real_cursor().1 + 1;
        let w = if self.cols_filled >= c {
            self.cols_filled
        } else {
            c
        };
        (w, self.rows_filled)
    }

    /// Inserts grapheme `ch` into the first line at the cursor column, in the first range
    /// that reaches past it.
    /// Gives the range and the position within it where `ch` went, if it went anywhere.
    fn insert_into_lines(&mut self, ch: String) -> (r: Option<(usize, usize)>)
        requires
            old(self).wf(),
            old(self)@.lines.len() > 0,
            grapheme_count(old(self)@.lines[0], old(self)@.lines[0].len() as int) <= usize::MAX,
        ensures
            final(self).wf(),
            final(self)@ == with_lines(
                old(self)@,
                old(self)@.lines.update(0, inserted_from(old(self)@.lines[0], real_cursor_col(old(self)@.model) as int, ch@, 0)),
            ),
            match r {
                Some((i, k)) => {
                    let rs = old(self)@.lines[0];
                    &&& i < rs.len()
                    &&& k <= rs[i as int].graphemes.len()
                    &&& inserted_from(rs, real_cursor_col(old(self)@.model) as int, ch@, 0) == rs.update(
                        i as int,
                        RangeView { graphemes: rs[i as int].graphemes.insert(k as int, ch@), ..rs[i as int] },
                    )
                },
                None => inserted_from(old(self)@.lines[0], real_cursor_col(old(self)@.model) as int, ch@, 0) == old(self)@.lines[0],
            },
    {
        let ghost l0 = self@;
        let ghost rs = l0.lines[0];
        let ghost g = ch@;
        let (_, cur_col) = self.model.get_real_cursor();
        let n = self.lines[0].len();
        assert(rs == line_view(self.lines@[0]));
        let mut col_idx: usize = 0;
        let mut i: usize = 0;
        while i < n
            invariant
                i <= n,
                n == self.lines@[0]@.len(),
                self.lines@.len() > 0,
                self@ == l0,
                l0 == old(self)@,
                self.wf(),
                cur_col == real_cursor_col(l0.model),
                rs == l0.lines[0],
                rs == line_view(self.lines@[0]),
                col_idx == grapheme_count(rs, i as int),
                col_idx <= cur_col,
                grapheme_count(rs, n as int) <= usize::MAX,
                g == ch@,
                inserted_from(rs, cur_col as int, g, 0) == inserted_from(rs, cur_col as int, g, i as int),
            decreases n - i,
        {
            proof {
                lemma_grapheme_count_monotone(rs, i + 1, n as int);
            }
            assert(rs[i as int].graphemes.len() == self.lines@[0]@[i as int].graphemes@.len());
            let len = self.lines[0][i].graphemes.len();
            if cur_col < col_idx + len {
                let col_sub_idx = cur_col - col_idx;
                let ghost old_lines = self.lines@;
                self.lines[0][i].graphemes.insert(col_sub_idx, ch);
                let ghost newr = RangeView { graphemes: rs[i as int].graphemes.insert(col_sub_idx as int, g), ..rs[i as int] };
                assert(self.lines@[0]@.len() == n);
                assert(self.lines@[0]@[i as int]@.graphemes =~= newr.graphemes);
                assert forall|k: int| 0 <= k < n && k != i implies #[trigger] self.lines@[0]@[k]@ == rs[k] by {
                    assert(self.lines@[0]@[k] == old_lines[0]@[k]);
                }
                assert(line_view(self.lines@[0]) =~= rs.update(i as int, newr));
                assert(line_view(self.lines@[0]) =~= inserted_from(rs, cur_col as int, g, i as int));
                assert(lines_view(self.lines@) =~= l0.lines.update(0, inserted_from(rs, cur_col as int, g, 0)));
                return Some((i, col_sub_idx));
            } else {
                col_idx = col_idx + len;
            }
            i = i + 1;
        }
        assert(lines_view(self.lines@) =~= l0.lines.update(0, inserted_from(rs, cur_col as int, g, 0)));
        None
    }
}

/// The width and height a layout takes: the filled width, widened to the column after the
/// cursor as drawn, and the rows filled.
pub open spec fn layout_size(l: LayoutView) -> (int, int) {
    let c = real_cursor_col(l.model) + 1;
    (if l.cols_filled >= c { l.cols_filled as int } else { c }, l.rows_filled as int)
}

proof fn lemma_rows_needed_append(a: Seq<Seq<RangeView>>, b: Seq<Seq<RangeView>>, columns: int, k: int)
    requires
        0 <= k <= b.len(),
    ensures
        rows_needed(a + b, columns, a.len() as int, a.len() + k) == rows_needed(b, columns, 0, k),
    decreases k,
{
    if k > 0 {
        lemma_rows_needed_append(a, b, columns, k - 1);
        assert((a + b)[a.len() + k - 1] == b[k - 1]);
    }
}

/// Laying out lines fills as many rows as the estimate for them gives.
pub proof fn law_layout_fills_estimated_rows(l: LayoutView, lines: Seq<Seq<RangeView>>)
    requires
        replace_ok(with_lines(l, lines), 0, 0, widths_of(lines)),
    ensures
        layout_size(replaced(with_lines(l, lines), 0, 0, widths_of(lines))).1 == rows_needed(
            lines,
            l.model.columns as int,
            0,
            lines.len() as int,
        ),
{
    lemma_rows_needed_monotone(lines, l.model.columns as int, 0, 0, lines.len() as int);
}

/// Appending lines fills the rows filled before plus as many as the estimate for the new
/// lines gives.
pub proof fn law_append_adds_estimated_rows(l: LayoutView, lines: Seq<Seq<RangeView>>)
    requires
        replace_ok(with_lines(l, l.lines + lines), l.rows_filled as int, l.lines.len() as int, widths_of(l.lines + lines)),
    ensures
        layout_size(
            replaced(with_lines(l, l.lines + lines), l.rows_filled as int, l.lines.len() as int, widths_of(l.lines + lines)),
        ).1 == l.rows_filled + rows_needed(lines, l.model.columns as int, 0, lines.len() as int),
{
    lemma_rows_needed_append(l.lines, lines, l.model.columns as int, lines.len() as int);
    lemma_rows_needed_monotone(lines, l.model.columns as int, 0, 0, lines.len() as int);
    assert(l.lines.len() + lines.len() == (l.lines + lines).len());
}

/// The width a layout reports reaches past the cursor as drawn, and so at least to the cursor
/// column.
pub proof fn law_size_covers_cursor(l: LayoutView)
    ensures
        layout_size(l).0 > real_cursor_col(l.model),
        layout_size(l).0 >= l.model.cur_col,
{
}

impl ModelLayout {
    /// Types grapheme `ch` at the cursor: with `shift`, inserts it into the first line and
    /// lays the lines out again; without, overwrites the cell under the cursor with highlight
    /// `hl`. An empty `ch` changes nothing.
    pub fn insert_char(&mut self, ch: String, shift: bool, hl: Rc<Highlight>)
        requires
            old(self).wf(),
            ch@.len() > 0 && shift ==> insert_shift_ok(old(self)@, ch@),
            ch@.len() > 0 && !shift ==> old(self)@.model.cur_row < old(self)@.model.rows
                && real_cursor_col(old(self)@.model) < old(self)@.model.columns,
        ensures
            final(self).wf(),
            final(self)@ == if ch@.len() == 0 {
                old(self)@
            } else if shift {
                replaced(with_inserted(old(self)@, ch@), 0, 0, widths_of(with_inserted(old(self)@, ch@).lines))
            } else {
                LayoutView {
                    model: with_cell(
                        old(self)@.model,
                        old(self)@.model.cur_row as int,
                        real_cursor_col(old(self)@.model) as int,
                        written_cell(ch@, false, *hl),
                    ),
                    ..old(self)@
                }
            },
    {
        if ch.as_str().is_empty() {
            return;
        }
        let (row, col) = self.model.get_real_cursor();
        if shift {
            self.insert_into_lines(ch);
            self.layout_replace(0, 0);
        } else {
            self.model.put_one(row, col, ch.as_str(), false, hl);
        }
    }
}

/// Whether placing `range` from `p` stays in bounds; where it does, the next column and row.
fn range_fits(columns: usize, rows: usize, range: &HighlightedRange, ws: &Vec<usize>, col: usize, row: usize, Ghost(p): Ghost<Placement>) -> (r: Option<(usize, usize)>)
    requires
        p.model.columns == columns,
        p.model.rows == rows,
        p.col == col,
        p.row == row,
        p.ok,
        ws@.len() == range.graphemes@.len(),
    ensures
        match r {
            Some((c, rw)) => {
                let q = place_range(p, range@, ws@);
                q.ok && q.col == c && q.row == rw && q.model.columns == columns && q.model.rows == rows
            },
            None => !place_range(p, range@, ws@).ok,
        },
{
    let ghost rv = range@;
    let ghost hl = rv.highlight;
    let n = range.graphemes.len();
    let mut col_idx = col;
    let mut row_idx = row;
    let mut k: usize = 0;
    while k < n
        invariant
            k <= n,
            n == range.graphemes@.len(),
            n == ws@.len(),
            rv == range@,
            hl == rv.highlight,
            ({
                let c = place_graphemes(p, rv.graphemes, ws@, hl, k as int);
                c.ok && c.col == col_idx && c.row == row_idx && c.model.columns == columns && c.model.rows == rows
            }),
        decreases n - k,
    {
        proof {
            if place_graphemes(p, rv.graphemes, ws@, hl, n as int).ok {
                lemma_graphemes_ok(p, rv.graphemes, ws@, hl, k + 1, n as int);
            }
        }
        let w = ws[k];
        let ch_width: usize = if w < 1 { 1 } else { w };
        if col_idx > usize::MAX - ch_width {
            return None;
        }
        if col_idx + ch_width > columns {
            if columns == 0 || rows == 0 || row_idx >= rows - 1 {
                return None;
            }
            col_idx = 0;
            row_idx = row_idx + 1;
        } else if row_idx >= rows {
            return None;
        }
        col_idx = col_idx + ch_width;
        k = k + 1;
    }
    proof {
        if place_range(p, rv, ws@).ok {
            lemma_graphemes_ok(p, rv.graphemes, ws@, hl, n as int, n as int);
        }
    }
    if col_idx < columns && row_idx >= rows {
        return None;
    }
    Some((col_idx, row_idx))
}

/// Whether placing `line` from `p` stays in bounds; where it does, the next column and row.
fn line_fits(columns: usize, rows: usize, line: &HighlightedLine, ws: &Vec<Vec<usize>>, col: usize, row: usize, Ghost(p): Ghost<Placement>) -> (r: Option<(usize, usize)>)
    requires
        p.model.columns == columns,
        p.model.rows == rows,
        p.col == col,
        p.row == row,
        p.ok,
        ws@.len() == line@.len(),
        forall|j: int| 0 <= j < line@.len() ==> (#[trigger] ws@[j])@.len() == line@[j].graphemes@.len(),
    ensures
        match r {
            Some((c, rw)) => {
                let q = place_line(p, line_view(*line), line_widths_view(*ws));
                q.ok && q.col == c && q.row == rw && q.model.columns == columns && q.model.rows == rows
            },
            None => !place_line(p, line_view(*line), line_widths_view(*ws)).ok,
        },
{
    let ghost lv = line_view(*line);
    let ghost wv = line_widths_view(*ws);
    let n = line.len();
    let mut col_idx = col;
    let mut row_idx = row;
    let mut j: usize = 0;
    while j < n
        invariant
            j <= n,
            n == line@.len(),
            n == ws@.len(),
            lv == line_view(*line),
            wv == line_widths_view(*ws),
            forall|j: int| 0 <= j < line@.len() ==> (#[trigger] ws@[j])@.len() == line@[j].graphemes@.len(),
            ({
                let c = place_ranges(p, lv, wv, j as int);
                c.ok && c.col == col_idx && c.row == row_idx && c.model.columns == columns && c.model.rows == rows
            }),
        decreases n - j,
    {
        proof {
            if place_ranges(p, lv, wv, n as int).ok {
                lemma_ranges_ok(p, lv, wv, j + 1, n as int);
            }
        }
        assert(lv[j as int] == line@[j as int]@);
        assert(wv[j as int] == ws@[j as int]@);
        match range_fits(columns, rows, &line[j], &ws[j], col_idx, row_idx, Ghost(place_ranges(p, lv, wv, j as int))) {
            Some((c1, r1)) => {
                col_idx = c1;
                row_idx = r1;
            },
            None => {
                return None;
            },
        }
        j = j + 1;
    }
    if row_idx == usize::MAX {
        return None;
    }
    Some((0, row_idx + 1))
}

/// The model rows allocated for `rows` rows of layout, where that fits in `usize`.
fn checked_model_rows(rows: usize) -> (r: Option<usize>)
    ensures
        match r {
            Some(m) => m == model_rows_for(rows as int),
            None => model_rows_for(rows as int) > usize::MAX,
        },
{
    (rows / (ModelLayout::ROWS_STEP + 1) + 1).checked_mul(ModelLayout::ROWS_STEP)
}

/// The graphemes of a line, where their number fits in `usize`.
fn checked_grapheme_count(line: &HighlightedLine) -> (r: Option<usize>)
    ensures
        match r {
            Some(c) => c == grapheme_count(line_view(*line), line@.len() as int),
            None => grapheme_count(line_view(*line), line@.len() as int) > usize::MAX,
        },
{
    let ghost l = line_view(*line);
    let mut len: usize = 0;
    let mut j: usize = 0;
    while j < line.len()
        invariant
            j <= line@.len(),
            l == line_view(*line),
            len == grapheme_count(l, j as int),
        decreases line@.len() - j,
    {
        assert(l[j as int].graphemes.len() == line@[j as int].graphemes@.len());
        match len.checked_add(line[j].graphemes.len()) {
            Some(v) => {
                len = v;
            },
            None => {
                proof {
                    lemma_grapheme_count_monotone(l, j + 1, line@.len() as int);
                }
                return None;
            },
        }
        j = j + 1;
    }
    Some(len)
}

impl ModelLayout {
    /// Whether wrapping lines `take_from..` from row `row_offset`, with the given display
    /// widths, stays in bounds and within `usize`.
    fn replace_fits(&self, row_offset: usize, take_from: usize, widths: &Vec<Vec<Vec<usize>>>) -> (r: bool)
        requires
            self.wf(),
            widths_fit(table_view(widths@), self@.lines),
        ensures
            r == replace_ok(self@, row_offset as int, take_from as int, table_view(widths@)),
    {
        let ghost l = self@;
        let ghost ws = table_view(widths@);
        let n = self.lines.len();
        if take_from > n || self.model.columns == usize::MAX {
            return false;
        }
        let columns = self.model.columns;
        let mut rows: usize = 0;
        let mut i: usize = take_from;
        while i < n
            invariant
                take_from <= i <= n,
                n == self.lines@.len(),
                l == self@,
                columns == l.model.columns,
                columns < usize::MAX,
                rows == rows_needed(l.lines, columns as int, take_from as int, i as int),
                forall|m: int| take_from <= m < i ==> grapheme_count(#[trigger] l.lines[m], l.lines[m].len() as int) <= usize::MAX,
            decreases n - i,
        {
            assert(l.lines[i as int] == line_view(self.lines@[i as int]));
            proof {
                lemma_rows_needed_monotone(l.lines, columns as int, take_from as int, i + 1, n as int);
            }
            match checked_grapheme_count(&self.lines[i]) {
                Some(len) => {
                    let step = match (len / (columns + 1)).checked_add(1) {
                        Some(v) => v,
                        None => {
                            return false;
                        },
                    };
                    match rows.checked_add(step) {
                        Some(v) => {
                            rows = v;
                        },
                        None => {
                            return false;
                        },
                    }
                },
                None => {
                    return false;
                },
            }
            i = i + 1;
        }
        let total = match rows.checked_add(row_offset) {
            Some(v) => v,
            None => {
                return false;
            },
        };
        let mut model_rows = self.model.rows;
        if total > self.model.rows {
            match checked_model_rows(total) {
                Some(m) => {
                    model_rows = m;
                },
                None => {
                    return false;
                },
            }
            if self.rows_filled < 1 || self.rows_filled - 1 >= self.model.rows || self.rows_filled - 1 >= model_rows {
                return false;
            }
        }
        let ghost p0 = Placement { model: sized_model(l, total as int), col: 0, row: row_offset as int, max_col: 0, ok: true };
        assert(placed(l, row_offset as int, take_from as int, ws) == place_lines(p0, l.lines, ws, take_from as int, n as int));
        let mut col_idx: usize = 0;
        let mut row_idx: usize = row_offset;
        let mut i: usize = take_from;
        while i < n
            invariant
                take_from <= i <= n,
                n == self.lines@.len(),
                l == self@,
                ws == table_view(widths@),
                widths_fit(ws, l.lines),
                columns == l.model.columns,
                placed(l, row_offset as int, take_from as int, ws) == place_lines(p0, l.lines, ws, take_from as int, n as int),
                ({
                    let c = place_lines(p0, l.lines, ws, take_from as int, i as int);
                    c.ok && c.col == col_idx && c.row == row_idx && c.model.columns == columns && c.model.rows == model_rows
                }),
            decreases n - i,
        {
            proof {
                if place_lines(p0, l.lines, ws, take_from as int, n as int).ok {
                    lemma_lines_ok(p0, l.lines, ws, take_from as int, i + 1, n as int);
                }
            }
            assert(l.lines[i as int] == line_view(self.lines@[i as int]));
            assert(ws[i as int] == line_widths_view(widths@[i as int]));
            assert forall|j: int| 0 <= j < self.lines@[i as int]@.len() implies (#[trigger] widths@[i as int]@[j])@.len() == self.lines@[i as int]@[j].graphemes@.len() by {
                assert(ws[i as int][j] == widths@[i as int]@[j]@);
                assert(l.lines[i as int][j] == self.lines@[i as int]@[j]@);
            }
            match line_fits(columns, model_rows, &self.lines[i], &widths[i], col_idx, row_idx, Ghost(place_lines(p0, l.lines, ws, take_from as int, i as int))) {
                Some((c1, r1)) => {
                    col_idx = c1;
                    row_idx = r1;
                },
                None => {
                    return false;
                },
            }
            i = i + 1;
        }
        true
    }
}

impl ModelLayout {
    /// `layout`, where laying out `lines` stays in bounds; otherwise nothing changes and the
    /// result is `false`.
    pub fn try_layout(&mut self, lines: Vec<HighlightedLine>) -> (r: bool)
        requires
            old(self).wf(),
        ensures
            final(self).wf(),
            r == replace_ok(with_lines(old(self)@, lines_view(lines@)), 0, 0, widths_of(lines_view(lines@))),
            r ==> final(self)@ == replaced(with_lines(old(self)@, lines_view(lines@)), 0, 0, widths_of(lines_view(lines@))),
            !r ==> final(self)@ == old(self)@,
    {
        let mut lines = lines;
        std::mem::swap(&mut self.lines, &mut lines);
        let widths = widths_of_lines(&self.lines);
        proof {
            lemma_widths_of_fit(self@.lines);
        }
        let fits = self.replace_fits(0, 0, &widths);
        std::mem::swap(&mut self.lines, &mut lines);
        if fits {
            self.layout(lines);
        }
        fits
    }

    /// `layout_append`, where appending `lines` stays in bounds; otherwise nothing changes and
    /// the result is `false`.
    pub fn try_layout_append(&mut self, lines: Vec<HighlightedLine>) -> (r: bool)
        requires
            old(self).wf(),
        ensures
            final(self).wf(),
            r == replace_ok(
                with_lines(old(self)@, old(self)@.lines + lines_view(lines@)),
                old(self)@.rows_filled as int,
                old(self)@.lines.len() as int,
                widths_of(old(self)@.lines + lines_view(lines@)),
            ),
            r ==> final(self)@ == replaced(
                with_lines(old(self)@, old(self)@.lines + lines_view(lines@)),
                old(self)@.rows_filled as int,
                old(self)@.lines.len() as int,
                widths_of(old(self)@.lines + lines_view(lines@)),
            ),
            !r ==> final(self)@ == old(self)@,
    {
        let ghost l0 = self@;
        let ghost old_lines = self.lines@;
        let mut lines = lines;
        let ghost added = lines@;
        let take_from = self.lines.len();
        self.lines.append(&mut lines);
        assert(lines_view(self.lines@) =~= l0.lines + lines_view(added));
        let widths = widths_of_lines(&self.lines);
        proof {
            lemma_widths_of_fit(self@.lines);
        }
        let fits = self.replace_fits(self.rows_filled, take_from, &widths);
        let appended = self.lines.split_off(take_from);
        assert(self.lines@ =~= old_lines);
        assert(appended@ =~= added);
        if fits {
            self.layout_append(appended);
        }
        fits
    }

    /// `insert_char`, where typing `ch` stays in bounds; otherwise nothing changes and the
    /// result is `false`.
    pub fn try_insert_char(&mut self, ch: String, shift: bool, hl: Rc<Highlight>) -> (r: bool)
        requires
            old(self).wf(),
        ensures
            final(self).wf(),
            r == (ch@.len() == 0 || (shift && insert_shift_ok(old(self)@, ch@)) || (!shift && old(self)@.model.cur_row
                < old(self)@.model.rows && real_cursor_col(old(self)@.model) < old(self)@.model.columns)),
            r ==> final(self)@ == if ch@.len() == 0 {
                old(self)@
            } else if shift {
                replaced(with_inserted(old(self)@, ch@), 0, 0, widths_of(with_inserted(old(self)@, ch@).lines))
            } else {
                LayoutView {
                    model: with_cell(
                        old(self)@.model,
                        old(self)@.model.cur_row as int,
                        real_cursor_col(old(self)@.model) as int,
                        written_cell(ch@, false, *hl),
                    ),
                    ..old(self)@
                }
            },
            !r ==> final(self)@ == old(self)@,
    {
        if ch.as_str().is_empty() {
            self.insert_char(ch, shift, hl);
            return true;
        }
        if !shift {
            let (row, col) = self.model.get_real_cursor();
            if row < self.model.rows && col < self.model.columns {
                self.insert_char(ch, shift, hl);
                return true;
            }
            return false;
        }
        if self.lines.len() == 0 {
            return false;
        }
        assert(self@.lines[0] == line_view(self.lines@[0]));
        if checked_grapheme_count(&self.lines[0]).is_none() {
            return false;
        }
        let ghost l0 = self@;
        let ghost old_lines = self.lines@;
        let probe = ch.clone();
        let pos = self.insert_into_lines(probe);
        assert(self@ == with_inserted(l0, ch@));
        let widths = widths_of_lines(&self.lines);
        proof {
            lemma_widths_of_fit(self@.lines);
        }
        let fits = self.replace_fits(0, 0, &widths);
        assert(fits == insert_shift_ok(l0, ch@));
        match pos {
            Some((i, k)) => {
                let ghost inserted = self.lines@;
                assert(self@.lines[0] == line_view(self.lines@[0]));
                assert(self@.lines[0][i as int] == self.lines@[0]@[i as int]@);
                assert(self.lines@[0]@[i as int].graphemes@.len() == self@.lines[0][i as int].graphemes.len());
                let ghost before = self@.lines;
                let ghost rs = l0.lines[0];
                self.lines[0][i].graphemes.remove(k);
                assert(self.lines@[0]@[i as int]@.graphemes =~= before[0][i as int].graphemes.remove(k as int));
                assert(self.lines@[0]@[i as int]@.graphemes =~= rs[i as int].graphemes);
                assert forall|j: int| 0 <= j < rs.len() && j != i implies #[trigger] self.lines@[0]@[j]@ == rs[j] by {
                    assert(self.lines@[0]@[j] == inserted[0]@[j]);
                    assert(before[0][j] == inserted[0]@[j]@);
                }
                assert(line_view(self.lines@[0]) =~= rs);
                assert forall|j: int| 0 < j < l0.lines.len() implies #[trigger] lines_view(self.lines@)[j] == l0.lines[j] by {
                    assert(self.lines@[j] == inserted[j]);
                    assert(before[j] == l0.lines[j]);
                    assert(before[j] == line_view(inserted[j]));
                }
                assert(lines_view(self.lines@) =~= l0.lines);
            },
            None => {
                assert(self@.lines =~= l0.lines);
            },
        }
        assert(self@ == l0);
        if fits {
            self.insert_char(ch, shift, hl);
        }
        fits
    }
}

} // verus!
