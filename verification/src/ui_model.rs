//! The UI model: a grid of highlighted cells with a cursor, and the wrapped layout built on it.

pub mod cell;
pub mod highlight;
pub mod line;
pub mod model_layout;
pub mod model_rect;

use std::rc::Rc;

use vstd::prelude::*;

use self::cell::CellView;
use self::highlight::Highlight;
use self::line::{cleared_line, fresh_line, line_wf, Line, LineView};

verus! {

/// A grid of `rows` lines of `columns` cells, with a cursor.
#[derive(Debug)]
pub struct UiModel {
    pub columns: usize,
    pub rows: usize,
    cur_row: usize,
    cur_col: usize,
    pub model: Vec<Line>,
}

/// What a model holds.
pub struct ModelView {
    pub columns: usize,
    pub rows: usize,
    pub cur_row: usize,
    pub cur_col: usize,
    pub lines: Seq<LineView>,
}

/// `rows` lines of `columns` consistent cells each.
pub open spec fn model_wf(m: ModelView) -> bool {
    &&& m.lines.len() == m.rows
    &&& forall|r: int| 0 <= r < m.rows ==> line_wf(#[trigger] m.lines[r]) && m.lines[r].cells.len() == m.columns
}


/// A model of `rows` fresh lines of `columns` cells, cursor at the origin.
pub open spec fn fresh_model(rows: usize, columns: usize) -> ModelView {
    ModelView {
        columns,
        rows,
        cur_row: 0,
        cur_col: 0,
        lines: Seq::new(rows as nat, |n: int| fresh_line(columns as nat)),
    }
}

/// The column the cursor is drawn at: a cursor on the second half of a double-width character
/// is drawn at its first half.
pub open spec fn real_cursor_col(m: ModelView) -> usize {
    if m.cur_row < m.rows && 0 < m.cur_col < m.columns && m.lines[m.cur_row as int].cells[m.cur_col as int].double_width {
        (m.cur_col - 1) as usize
    } else {
        m.cur_col
    }
}

/// `m` with cell `(row, col)` replaced by `cell` and that line marked for redrawing.
pub open spec fn with_cell(m: ModelView, row: int, col: int, cell: CellView) -> ModelView {
    ModelView {
        lines: m.lines.update(
            row,
            LineView { cells: m.lines[row].cells.update(col, cell), dirty: true, ..m.lines[row] },
        ),
        ..m
    }
}

/// The cell `put_one` writes: text `ch`, highlight `hl`, the double-width flag, marked dirty.
pub open spec fn written_cell(ch: Seq<char>, double_width: bool, hl: Highlight) -> CellView {
    CellView { ch, hl, double_width, dirty: true }
}

impl UiModel {
    pub closed spec fn view_model(&self) -> ModelView {
        ModelView {
            columns: self.columns,
            rows: self.rows,
            cur_row: self.cur_row,
            cur_col: self.cur_col,
            lines: self.model@.map_values(|l: Line| l.view_line()),
        }
    }

    pub open spec fn wf(&self) -> bool {
        model_wf(self.view_model())
    }

    pub fn new(rows: u64, columns: u64) -> (r: Self)
        requires
            rows <= usize::MAX,
            columns <= usize::MAX,
        ensures
            r.wf(),
            r.view_model() == fresh_model(rows as usize, columns as usize),
    {
        let rows = rows as usize;
        let columns = columns as usize;
        let mut model: Vec<Line> = Vec::new();
        let mut i: usize = 0;
        while i < rows
            invariant
                i <= rows,
                model@.len() == i,
                forall|n: int| 0 <= n < i ==> #[trigger] model@[n].view_line() == fresh_line(columns as nat),
            decreases rows - i,
        {
            model.push(Line::new(columns));
            i = i + 1;
        }
        let r = UiModel { columns, rows, cur_row: 0, cur_col: 0, model };
        assert(r.view_model().lines =~= fresh_model(rows, columns).lines);
        r
    }

    pub fn model(&self) -> (r: &[Line])
        ensures
            r@.len() == self.view_model().lines.len(),
            forall|n: int| 0 <= n < r@.len() ==> #[trigger] r@[n].view_line() == self.view_model().lines[n],
    {
        self.model.as_slice()
    }

    pub fn set_cursor(&mut self, row: usize, col: usize)
        ensures
            final(self).view_model() == (ModelView { cur_row: row, cur_col: col, ..old(self).view_model() }),
    {
        self.cur_row = row;
        self.cur_col = col;
    }

    pub fn get_cursor(&self) -> (r: (usize, usize))
        ensures
            r == (self.view_model().cur_row, self.view_model().cur_col),
    {
        (self.cur_row, self.cur_col)
    }

    /// The cursor position as drawn.
    pub fn get_real_cursor(&self) -> (r: (usize, usize))
        requires
            self.wf(),
        ensures
            r == (self.view_model().cur_row, real_cursor_col(self.view_model())),
    {
        if self.cur_row < self.rows && 0 < self.cur_col && self.cur_col < self.columns {
            assert(self.model@[self.cur_row as int].view_line() == self.view_model().lines[self.cur_row as int]);
            assert(self.model@[self.cur_row as int].line@[self.cur_col as int]@
                == self.view_model().lines[self.cur_row as int].cells[self.cur_col as int]);
            if self.model[self.cur_row].line[self.cur_col].double_width {
                return (self.cur_row, self.cur_col - 1);
            }
        }
        (self.cur_row, self.cur_col)
    }

    /// Writes `ch` with highlight `hl` into cell `(row, col)`.
    pub fn put_one(&mut self, row: usize, col: usize, ch: &str, double_width: bool, hl: Rc<Highlight>)
        requires
            old(self).wf(),
            row < old(self).view_model().rows,
            col < old(self).view_model().columns,
        ensures
            final(self).wf(),
            final(self).view_model() == with_cell(old(self).view_model(), row as int, col as int, written_cell(ch@, double_width, *hl)),
    {
        let ghost m0 = self.view_model();
        assert(self.model@[row as int].view_line() == m0.lines[row as int]);
        let ghost l0 = self.model@[row as int];
        let ghost h: Highlight = *hl;
        let cell = crate::ui_model::cell::Cell { ch: ch.to_owned(), hl, double_width, dirty: true };
        let ghost cv = cell@;
        self.model[row].line.set(col, cell);
        self.model[row].dirty_line = true;
        let ghost newline = LineView { cells: m0.lines[row as int].cells.update(col as int, cv), dirty: true, ..m0.lines[row as int] };
        assert(self.model@[row as int].view_line().cells =~= newline.cells);
        assert(self.model@[row as int].view_line() == newline);
        assert(self.view_model().lines =~= m0.lines.update(row as int, newline));
        assert(cv == written_cell(ch@, double_width, h));
    }

    /// Clears cells `[left, right]` of row `row` to highlight `hl`.
    pub fn clear_row(&mut self, row: usize, left: usize, right: usize, hl: &Rc<Highlight>)
        requires
            old(self).wf(),
            row < old(self).view_model().rows,
            left <= right < old(self).view_model().columns,
        ensures
            final(self).wf(),
            final(self).view_model() == (ModelView {
                lines: old(self).view_model().lines.update(
                    row as int,
                    cleared_line(old(self).view_model().lines[row as int], left as int, right as int, **hl),
                ),
                ..old(self).view_model()
            }),
    {
        let ghost m0 = self.view_model();
        assert(self.model@[row as int].view_line() == m0.lines[row as int]);
        self.model[row].clear(left, right, hl);
        assert(self.view_model().lines =~= m0.lines.update(
            row as int,
            cleared_line(m0.lines[row as int], left as int, right as int, **hl),
        ));
    }

    /// Copies rows `0..=up_to_row` into `target`.
    pub fn swap_rows(&self, target: &mut UiModel, up_to_row: usize)
        requires
            self.wf(),
            old(target).wf(),
            self.view_model().columns == old(target).view_model().columns,
            up_to_row < self.view_model().rows,
            up_to_row < old(target).view_model().rows,
        ensures
            final(target).wf(),
            final(target).view_model().rows == old(target).view_model().rows,
            final(target).view_model().columns == old(target).view_model().columns,
            final(target).view_model().cur_row == old(target).view_model().cur_row,
            final(target).view_model().cur_col == old(target).view_model().cur_col,
            forall|n: int| 0 <= n < old(target).view_model().rows ==> #[trigger] final(target).view_model().lines[n] == if n <= up_to_row {
                self.view_model().lines[n]
            } else {
                old(target).view_model().lines[n]
            },
    {
        let ghost t0 = target.view_model();
        let mut i: usize = 0;
        while i <= up_to_row
            invariant
                i <= up_to_row + 1,
                up_to_row < self.view_model().rows,
                up_to_row < t0.rows,
                self.wf(),
                target.columns == t0.columns,
                target.rows == t0.rows,
                target.cur_row == t0.cur_row,
                target.cur_col == t0.cur_col,
                self.view_model().columns == t0.columns,
                target.model@.len() == t0.rows,
                forall|n: int| 0 <= n < t0.rows ==> #[trigger] target.model@[n].view_line() == if n < i {
                    self.view_model().lines[n]
                } else {
                    t0.lines[n]
                },
            decreases up_to_row + 1 - i,
        {
            assert(self.model@[i as int].view_line() == self.view_model().lines[i as int]);
            let l = self.model[i].copy();
            target.model.set(i, l);
            i = i + 1;
        }
        assert forall|n: int| 0 <= n < t0.rows implies #[trigger] target.view_model().lines[n] == target.model@[n].view_line() by {}
    }
}

} // verus!
