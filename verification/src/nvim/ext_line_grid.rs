//! The line grids that `ext_linegrid` redraw events draw into.

use vstd::prelude::*;

use super::event::GridLineCell;

verus! {

/// One row of a grid.
#[derive(Debug, Clone)]
pub struct Line {
    columns: Vec<GridLineCell>,
}

/// Where the cursor of a grid is.
#[derive(Debug, Clone, Copy)]
pub struct CursorPosition {
    pub column: usize,
    pub row: usize,
}

/// A grid of `rows` lines of `columns` cells each, with a cursor.
#[derive(Debug, Clone)]
pub struct ExtLineGrid {
    columns: usize,
    rows: usize,
    cursor_position: CursorPosition,
    buffer: Vec<Line>,
}

/// What a grid holds: its size, its cursor and its cells by row and column.
pub struct GridView {
    pub columns: usize,
    pub rows: usize,
    pub cursor_row: usize,
    pub cursor_column: usize,
    pub cells: Seq<Seq<GridLineCell>>,
}

/// A cell as a cleared grid holds it: one space, no highlight, no repeat.
pub open spec fn is_blank(c: GridLineCell) -> bool {
    c.text@ == seq![' '] && c.highlight_id.is_none() && c.repeat.is_none()
}

/// The grid has `rows` rows of `columns` cells each.
pub open spec fn grid_wf(g: GridView) -> bool {
    &&& g.cells.len() == g.rows
    &&& forall|r: int| 0 <= r < g.rows ==> (#[trigger] g.cells[r]).len() == g.columns
}

impl Line {
    /// The cells of the row.
    pub closed spec fn cells(&self) -> Seq<GridLineCell> {
        self.columns@
    }

    fn new(len: usize) -> (r: Self)
        ensures
            r.cells().len() == len,
            forall|c: int| 0 <= c < len ==> is_blank(#[trigger] r.cells()[c]),
    {
        let mut columns: Vec<GridLineCell> = Vec::new();
        let mut i: usize = 0;
        while i < len
            invariant
                i <= len,
                columns@.len() == i,
                forall|c: int| 0 <= c < i ==> is_blank(#[trigger] columns@[c]),
            decreases len - i,
        {
            columns.push(GridLineCell::empty());
            i = i + 1;
        }
        Line { columns }
    }

    pub fn columns(&self) -> (r: &[GridLineCell])
        ensures
            r@ == self.cells(),
    {
        self.columns.as_slice()
    }
}

impl View for ExtLineGrid {
    type V = GridView;

    closed spec fn view(&self) -> GridView {
        GridView {
            columns: self.columns,
            rows: self.rows,
            cursor_row: self.cursor_position.row,
            cursor_column: self.cursor_position.column,
            cells: self.buffer@.map_values(|l: Line| l.columns@),
        }
    }
}

/// Which old row a scrolled row `n` of the region `[top, bottom)` takes its cells from.
/// Scrolling up by `rows > 0` moves every row `rows` up, and the rows that open at the bottom
/// take the cells that left at the top, each from the top row of its own residue class modulo
/// `rows`; scrolling down is the mirror image. A region no higher than the scroll moves nothing.
pub open spec fn scroll_source(top: int, bottom: int, rows: int, n: int) -> int {
    let len = bottom - top;
    let i = n - top;
    if rows > 0 && len > rows {
        if i < len - rows {
            n + rows
        } else {
            top + i % rows
        }
    } else if rows < 0 && len > -rows {
        let r = -rows;
        if i >= r {
            n - r
        } else {
            top + (len - 1 - ((len - 1 - i) % r))
        }
    } else {
        n
    }
}

/// Whether a scroll of `rows` moves any cell of the region `[top, bottom)`.
pub open spec fn scroll_moves(top: int, bottom: int, rows: int) -> bool {
    rows != 0 && bottom - top > (if rows > 0 { rows } else { -rows })
}

/// `new` is `old` with the region rows `[top, bottom)`, columns `[left, right)` scrolled by
/// `rows`.
pub open spec fn scroll_result(
    old: Seq<Seq<GridLineCell>>,
    new: Seq<Seq<GridLineCell>>,
    top: int,
    bottom: int,
    left: int,
    right: int,
    rows: int,
) -> bool {
    &&& new.len() == old.len()
    &&& forall|n: int| 0 <= n < old.len() ==> (#[trigger] new[n]).len() == old[n].len()
    &&& forall|n: int, c: int|
        0 <= n < old.len() && 0 <= c < old[n].len() ==> #[trigger] new[n][c] == if top <= n < bottom
            && left <= c < right && scroll_moves(top, bottom, rows) {
            old[scroll_source(top, bottom, rows, n)][c]
        } else {
            old[n][c]
        }
}

/// A cell repeated by its `repeat` count, the count cleared.
pub open spec fn repeat_count(c: GridLineCell) -> nat {
    match c.repeat {
        Some(n) => n as nat,
        None => 1,
    }
}

pub open spec fn unrepeated(c: GridLineCell) -> GridLineCell {
    GridLineCell { repeat: None, ..c }
}

/// The cells a `grid_line` run writes, one per column.
pub open spec fn expand_cells(cells: Seq<GridLineCell>) -> Seq<GridLineCell>
    decreases cells.len(),
{
    if cells.len() == 0 {
        Seq::empty()
    } else {
        expand_cells(cells.drop_last()) + Seq::new(
            repeat_count(cells.last()),
            |k: int| unrepeated(cells.last()),
        )
    }
}

proof fn lemma_expand_prefix_len(cells: Seq<GridLineCell>, i: int)
    requires
        0 <= i <= cells.len(),
    ensures
        expand_cells(cells.subrange(0, i)).len() <= expand_cells(cells).len(),
    decreases cells.len() - i,
{
    if i < cells.len() {
        assert(cells.subrange(0, i + 1).drop_last() == cells.subrange(0, i));
        lemma_expand_prefix_len(cells, i + 1);
    } else {
        assert(cells.subrange(0, i) == cells);
    }
}

/// How many columns the cell runs write, where that fits in `usize`.
pub fn expanded_len(cells: &[GridLineCell]) -> (r: Option<usize>)
    ensures
        match r {
            Some(n) => n == expand_cells(cells@).len(),
            None => expand_cells(cells@).len() > usize::MAX,
        },
{
    let mut total: usize = 0;
    let mut i: usize = 0;
    while i < cells.len()
        invariant
            i <= cells@.len(),
            total == expand_cells(cells@.subrange(0, i as int)).len(),
        decreases cells@.len() - i,
    {
        proof {
            assert(cells@.subrange(0, i + 1).drop_last() == cells@.subrange(0, i as int));
            assert(cells@.subrange(0, i + 1).last() == cells@[i as int]);
        }
        let repeat = match cells[i].repeat {
            Some(n) => n,
            None => 1,
        };
        if repeat > (usize::MAX - total) as u64 {
            proof {
                lemma_expand_prefix_len(cells@, i + 1);
            }
            return None;
        }
        total = total + repeat as usize;
        i = i + 1;
    }
    assert(cells@.subrange(0, cells@.len() as int) == cells@);
    Some(total)
}

impl ExtLineGrid {
    /// The grid is `rows` by `columns`.
    pub open spec fn wf(&self) -> bool {
        grid_wf(self@)
    }

    pub fn new(columns: usize, rows: usize) -> (r: Self)
        ensures
            r.wf(),
            r@.columns == columns,
            r@.rows == rows,
            r@.cursor_row == 0,
            r@.cursor_column == 0,
            forall|n: int, c: int| 0 <= n < rows && 0 <= c < columns ==> is_blank(#[trigger] r@.cells[n][c]),
    {
        let mut buffer: Vec<Line> = Vec::new();
        let mut i: usize = 0;
        while i < rows
            invariant
                i <= rows,
                buffer@.len() == i,
                forall|n: int| 0 <= n < i ==> (#[trigger] buffer@[n]).columns@.len() == columns,
                forall|n: int, c: int| 0 <= n < i && 0 <= c < columns ==> is_blank(#[trigger] buffer@[n].columns@[c]),
            decreases rows - i,
        {
            let line = Line::new(columns);
            buffer.push(line);
            i = i + 1;
        }
        ExtLineGrid { columns, rows, cursor_position: CursorPosition { column: 0, row: 0 }, buffer }
    }

    pub fn columns(&self) -> (r: usize)
        ensures
            r == self@.columns,
    {
        self.columns
    }

    pub fn rows(&self) -> (r: usize)
        ensures
            r == self@.rows,
    {
        self.rows
    }

    pub fn cursor_position(&self) -> (r: &CursorPosition)
        ensures
            r.row == self@.cursor_row,
            r.column == self@.cursor_column,
    {
        &self.cursor_position
    }

    pub fn buffer(&self) -> (r: &[Line])
        ensures
            r@.len() == self@.cells.len(),
            forall|n: int| 0 <= n < r@.len() ==> (#[trigger] r@[n]).cells() == self@.cells[n],
    {
        self.buffer.as_slice()
    }
}

} // verus!

verus! {

/// Mid-scroll upwards: rows before `k` hold their final cells, the `rows` rows from `k` on
/// carry the cells that left the top, the rest are untouched.
pub open spec fn up_source(top: int, rows: int, k: int, x: int) -> int {
    if x < k {
        x + rows
    } else if x < k + rows {
        top + (x - top) % rows
    } else {
        x
    }
}

/// Mid-scroll downwards, rows from `k` on being done.
pub open spec fn down_source(bottom: int, r: int, k: int, x: int) -> int {
    if x >= k {
        x - r
    } else if x >= k - r {
        bottom - 1 - ((bottom - 1 - x) % r)
    } else {
        x
    }
}

proof fn lemma_mod_shift(a: int, m: int)
    requires
        m > 0,
    ensures
        (a + m) % m == a % m,
{
    vstd::arithmetic::div_mod::lemma_mod_add_multiples_vanish(a, m);
}

proof fn lemma_mod_small(a: int, m: int)
    requires
        0 <= a < m,
    ensures
        a % m == a,
{
    vstd::arithmetic::div_mod::lemma_small_mod(a as nat, m as nat);
}

impl ExtLineGrid {
    /// A copy of the cell at row `n`, column `c`.
    fn cell(&self, n: usize, c: usize) -> (r: GridLineCell)
        requires
            self.wf(),
            n < self@.rows,
            c < self@.columns,
        ensures
            r == self@.cells[n as int][c as int],
    {
        assert(self@.cells[n as int] == self.buffer@[n as int].columns@);
        self.buffer[n].columns[c].copy()
    }

    /// Writes `x` into row `n`, column `c`.
    fn set_cell(&mut self, n: usize, c: usize, x: GridLineCell)
        requires
            old(self).wf(),
            n < old(self)@.rows,
            c < old(self)@.columns,
        ensures
            final(self).wf(),
            final(self)@.rows == old(self)@.rows,
            final(self)@.columns == old(self)@.columns,
            final(self)@.cursor_row == old(self)@.cursor_row,
            final(self)@.cursor_column == old(self)@.cursor_column,
            final(self)@.cells == old(self)@.cells.update(
                n as int,
                old(self)@.cells[n as int].update(c as int, x),
            ),
    {
        let ghost old_cells = self@.cells;
        assert(self@.cells[n as int] == self.buffer@[n as int].columns@);
        self.buffer[n].columns[c] = x;
        assert(self.buffer@ == old(self).buffer@.update(n as int, Line { columns: self.buffer@[n as int].columns }));
        assert(self@.cells =~= old_cells.update(n as int, old_cells[n as int].update(c as int, x)));
    }

    /// Swaps the cells of columns `[left, right)` between rows `a` and `b`.
    fn swap_region(&mut self, a: usize, b: usize, left: usize, right: usize)
        requires
            old(self).wf(),
            a < old(self)@.rows,
            b < old(self)@.rows,
            a != b,
            left <= right <= old(self)@.columns,
        ensures
            final(self).wf(),
            final(self)@.rows == old(self)@.rows,
            final(self)@.columns == old(self)@.columns,
            final(self)@.cursor_row == old(self)@.cursor_row,
            final(self)@.cursor_column == old(self)@.cursor_column,
            forall|n: int, c: int|
                0 <= n < old(self)@.rows && 0 <= c < old(self)@.columns ==> #[trigger] final(self)@.cells[n][c]
                    == if left <= c < right && n == a {
                    old(self)@.cells[b as int][c]
                } else if left <= c < right && n == b {
                    old(self)@.cells[a as int][c]
                } else {
                    old(self)@.cells[n][c]
                },
    {
        let ghost start = self@;
        let mut c: usize = left;
        while c < right
            invariant
                left <= c <= right <= start.columns,
                a < start.rows,
                b < start.rows,
                a != b,
                self.wf(),
                self@.rows == start.rows,
                self@.columns == start.columns,
                self@.cursor_row == start.cursor_row,
                self@.cursor_column == start.cursor_column,
                forall|n: int, d: int|
                    0 <= n < start.rows && 0 <= d < start.columns ==> #[trigger] self@.cells[n][d]
                        == if left <= d < c && n == a {
                        start.cells[b as int][d]
                    } else if left <= d < c && n == b {
                        start.cells[a as int][d]
                    } else {
                        start.cells[n][d]
                    },
            decreases right - c,
        {
            let x = self.cell(a, c);
            let y = self.cell(b, c);
            self.set_cell(a, c, y);
            self.set_cell(b, c, x);
            c = c + 1;
        }
    }

    fn clear(&mut self)
        requires
            old(self).wf(),
        ensures
            final(self).wf(),
            final(self)@.rows == old(self)@.rows,
            final(self)@.columns == old(self)@.columns,
            final(self)@.cursor_row == old(self)@.cursor_row,
            final(self)@.cursor_column == old(self)@.cursor_column,
            forall|n: int, c: int|
                0 <= n < old(self)@.rows && 0 <= c < old(self)@.columns ==> is_blank(
                    #[trigger] final(self)@.cells[n][c],
                ),
    {
        let ghost start = self@;
        let mut n: usize = 0;
        while n < self.rows
            invariant
                n <= self@.rows,
                self.wf(),
                self@.rows == start.rows,
                self@.columns == start.columns,
                self@.cursor_row == start.cursor_row,
                self@.cursor_column == start.cursor_column,
                forall|m: int, c: int|
                    0 <= m < n && 0 <= c < self@.columns ==> is_blank(#[trigger] self@.cells[m][c]),
            decreases self@.rows - n,
        {
            let mut c: usize = 0;
            while c < self.columns
                invariant
                    n < self@.rows,
                    c <= self@.columns,
                    self.wf(),
                    self@.rows == start.rows,
                    self@.columns == start.columns,
                    self@.cursor_row == start.cursor_row,
                    self@.cursor_column == start.cursor_column,
                    forall|m: int, d: int|
                        0 <= m < n && 0 <= d < self@.columns ==> is_blank(#[trigger] self@.cells[m][d]),
                    forall|d: int| 0 <= d < c ==> is_blank(#[trigger] self@.cells[n as int][d]),
                decreases self@.columns - c,
            {
                self.set_cell(n, c, GridLineCell::empty());
                c = c + 1;
            }
            n = n + 1;
        }
    }

    fn update_cursor(&mut self, row: usize, column: usize)
        ensures
            final(self)@.cursor_row == row,
            final(self)@.cursor_column == column,
            final(self)@.rows == old(self)@.rows,
            final(self)@.columns == old(self)@.columns,
            final(self)@.cells == old(self)@.cells,
    {
        self.cursor_position.row = row;
        self.cursor_position.column = column;
    }
}

} // verus!

verus! {

impl ExtLineGrid {
    /// Scrolls the region rows `[top, bottom)`, columns `[left, right)` by `rows` (up when
    /// positive), as `grid_scroll` asks.
    fn scroll(&mut self, top: u64, bottom: u64, left: u64, right: u64, rows: i64, _columns: i64)
        requires
            old(self).wf(),
            top <= usize::MAX,
            bottom <= usize::MAX,
            left <= usize::MAX,
            right <= usize::MAX,
            rows > i64::MIN,
            rows > 0 ==> rows <= bottom,
            rows < 0 ==> top + (-rows) <= usize::MAX,
            scroll_moves(top as int, bottom as int, rows as int) ==> bottom <= old(self)@.rows && left
                <= right <= old(self)@.columns,
        ensures
            final(self).wf(),
            final(self)@.rows == old(self)@.rows,
            final(self)@.columns == old(self)@.columns,
            final(self)@.cursor_row == old(self)@.cursor_row,
            final(self)@.cursor_column == old(self)@.cursor_column,
            scroll_result(
                old(self)@.cells,
                final(self)@.cells,
                top as int,
                bottom as int,
                left as int,
                right as int,
                rows as int,
            ),
    {
        let top = top as usize;
        let bottom = bottom as usize;
        let left = left as usize;
        let right = right as usize;
        if rows > 0 {
            self.scroll_up(top, bottom, left, right, rows as usize);
        } else if rows < 0 {
            self.scroll_down(top, bottom, left, right, (-rows) as usize);
        }
    }

    fn scroll_up(&mut self, top: usize, bottom: usize, left: usize, right: usize, rows: usize)
        requires
            old(self).wf(),
            0 < rows <= bottom,
            scroll_moves(top as int, bottom as int, rows as int) ==> bottom <= old(self)@.rows && left
                <= right <= old(self)@.columns,
        ensures
            final(self).wf(),
            final(self)@.rows == old(self)@.rows,
            final(self)@.columns == old(self)@.columns,
            final(self)@.cursor_row == old(self)@.cursor_row,
            final(self)@.cursor_column == old(self)@.cursor_column,
            scroll_result(old(self)@.cells, final(self)@.cells, top as int, bottom as int, left as int, right as int, rows as int),
    {
        let ghost start = self@;
        let mut k: usize = top;
        assert forall|n: int, c: int|
            0 <= n < start.rows && 0 <= c < start.columns && top <= n < bottom && left <= c < right
                implies #[trigger] start.cells[n][c] == start.cells[up_source(top as int, rows as int, k as int, n)][c] by {
            if n < top + rows {
                lemma_mod_small(n - top, rows as int);
            }
        }
        while k < bottom - rows
            invariant
                top <= k,
                0 < rows <= bottom,
                k <= bottom - rows || k == top,
                k < bottom - rows ==> bottom <= start.rows && left <= right <= start.columns,
                self.wf(),
                self@.rows == start.rows,
                self@.columns == start.columns,
                self@.cursor_row == start.cursor_row,
                self@.cursor_column == start.cursor_column,
                forall|n: int, c: int|
                    0 <= n < start.rows && 0 <= c < start.columns ==> #[trigger] self@.cells[n][c]
                        == if top <= n < bottom && left <= c < right {
                        start.cells[up_source(top as int, rows as int, k as int, n)][c]
                    } else {
                        start.cells[n][c]
                    },
            decreases bottom - k,
        {
            let ghost before = self@;
            self.swap_region(k, k + rows, left, right);
            proof {
                lemma_mod_shift(k - top, rows as int);
            }
            assert forall|n: int, c: int|
                0 <= n < start.rows && 0 <= c < start.columns implies #[trigger] self@.cells[n][c]
                    == if top <= n < bottom && left <= c < right {
                    start.cells[up_source(top as int, rows as int, k + 1, n)][c]
                } else {
                    start.cells[n][c]
                } by {
                if n == k + rows && left <= c < right {
                    assert(before.cells[k as int][c] == start.cells[up_source(top as int, rows as int, k as int, k as int)][c]);
                }
                if n == k && left <= c < right {
                    assert(before.cells[k + rows][c] == start.cells[up_source(top as int, rows as int, k as int, k + rows)][c]);
                }
            }
            k = k + 1;
        }
        assert forall|n: int, c: int|
            0 <= n < start.rows && 0 <= c < start.columns implies #[trigger] self@.cells[n][c]
                == if top <= n < bottom && left <= c < right && scroll_moves(top as int, bottom as int, rows as int) {
                start.cells[scroll_source(top as int, bottom as int, rows as int, n)][c]
            } else {
                start.cells[n][c]
            } by {
            if top <= n < bottom && left <= c < right && !scroll_moves(top as int, bottom as int, rows as int) {
                lemma_mod_small(n - top, rows as int);
            }
        }
    }

    #[verifier::rlimit(40)]
    fn scroll_down(&mut self, top: usize, bottom: usize, left: usize, right: usize, r: usize)
        requires
            old(self).wf(),
            r > 0,
            top + r <= usize::MAX,
            scroll_moves(top as int, bottom as int, -r) ==> bottom <= old(self)@.rows && left
                <= right <= old(self)@.columns,
        ensures
            final(self).wf(),
            final(self)@.rows == old(self)@.rows,
            final(self)@.columns == old(self)@.columns,
            final(self)@.cursor_row == old(self)@.cursor_row,
            final(self)@.cursor_column == old(self)@.cursor_column,
            scroll_result(old(self)@.cells, final(self)@.cells, top as int, bottom as int, left as int, right as int, -r),
    {
        let ghost start = self@;
        let mut k: usize = bottom;
        assert forall|n: int, c: int|
            0 <= n < start.rows && 0 <= c < start.columns && top <= n < bottom && left <= c < right
                implies #[trigger] start.cells[n][c] == start.cells[down_source(bottom as int, r as int, k as int, n)][c] by {
            if n >= bottom - r {
                lemma_mod_small(bottom - 1 - n, r as int);
            }
        }
        while k > top + r
            invariant
                r > 0,
                top + r <= usize::MAX,
                top + r <= k <= bottom || k == bottom,
                k > top + r ==> bottom <= start.rows && left <= right <= start.columns,
                self.wf(),
                self@.rows == start.rows,
                self@.columns == start.columns,
                self@.cursor_row == start.cursor_row,
                self@.cursor_column == start.cursor_column,
                forall|n: int, c: int|
                    0 <= n < start.rows && 0 <= c < start.columns ==> #[trigger] self@.cells[n][c]
                        == if top <= n < bottom && left <= c < right {
                        start.cells[down_source(bottom as int, r as int, k as int, n)][c]
                    } else {
                        start.cells[n][c]
                    },
            decreases k,
        {
            let ghost before = self@;
            let n0 = k - 1;
            self.swap_region(n0 - r, n0, left, right);
            proof {
                lemma_mod_shift(bottom - 1 - n0, r as int);
            }
            assert forall|n: int, c: int|
                0 <= n < start.rows && 0 <= c < start.columns implies #[trigger] self@.cells[n][c]
                    == if top <= n < bottom && left <= c < right {
                    start.cells[down_source(bottom as int, r as int, n0 as int, n)][c]
                } else {
                    start.cells[n][c]
                } by {
                if n == n0 - r && left <= c < right {
                    assert(before.cells[n0 as int][c] == start.cells[down_source(bottom as int, r as int, k as int, n0 as int)][c]);
                }
                if n == n0 && left <= c < right {
                    assert(before.cells[n0 - r][c] == start.cells[down_source(bottom as int, r as int, k as int, n0 - r)][c]);
                }
            }
            k = n0;
        }
        assert forall|n: int, c: int|
            0 <= n < start.rows && 0 <= c < start.columns implies #[trigger] self@.cells[n][c]
                == if top <= n < bottom && left <= c < right && scroll_moves(top as int, bottom as int, -r) {
                start.cells[scroll_source(top as int, bottom as int, -r, n)][c]
            } else {
                start.cells[n][c]
            } by {
            if top <= n < bottom && left <= c < right && !scroll_moves(top as int, bottom as int, -r) {
                if n >= bottom - r {
                    lemma_mod_small(bottom - 1 - n, r as int);
                }
            }
        }
    }
}

} // verus!

verus! {

/// `new` is `old` resized: what both share is kept, every other cell is blank.
pub open spec fn resize_result(old: GridView, new: GridView) -> bool {
    forall|n: int, c: int|
        0 <= n < new.rows && 0 <= c < new.columns ==> if n < old.rows && c < old.columns {
            #[trigger] new.cells[n][c] == old.cells[n][c]
        } else {
            is_blank(new.cells[n][c])
        }
}

/// `new` is `old` with row `row` from column `start` on overwritten by `run`.
pub open spec fn line_written(old: GridView, new: GridView, row: int, start: int, run: Seq<GridLineCell>) -> bool {
    &&& new.cells.len() == old.cells.len()
    &&& forall|n: int| 0 <= n < old.cells.len() ==> (#[trigger] new.cells[n]).len() == old.cells[n].len()
    &&& forall|n: int, c: int|
        0 <= n < old.cells.len() && 0 <= c < old.cells[n].len() ==> #[trigger] new.cells[n][c] == if n
            == row && start <= c < start + run.len() {
            run[c - start]
        } else {
            old.cells[n][c]
        }
}

/// Resizing a grid to the size it already has keeps its cells and its cursor.
pub proof fn law_resize_to_same_size_keeps_grid(old: GridView, new: GridView)
    requires
        grid_wf(old),
        grid_resized(old, new, old.columns, old.rows),
    ensures
        new == old,
{
    assert forall|n: int| 0 <= n < old.rows implies #[trigger] new.cells[n] =~= old.cells[n] by {
        assert forall|c: int| 0 <= c < old.columns implies new.cells[n][c] == old.cells[n][c] by {
            assert(new.cells[n][c] == old.cells[n][c]);
        }
    }
    assert(new.cells =~= old.cells);
}

/// Resizing a grid to `rows` by `columns` leaves `rows` lines of `columns` cells each and the
/// cursor where it was; a cell inside both the old and the new size keeps what it held, and
/// every other cell is blank.
pub proof fn law_resize_keeps_shared_cells_and_blanks_the_rest(old: GridView, new: GridView, columns: usize, rows: usize)
    requires
        grid_wf(old),
        grid_resized(old, new, columns, rows),
    ensures
        new.rows == rows,
        new.columns == columns,
        new.cells.len() == rows,
        forall|r: int| 0 <= r < rows ==> (#[trigger] new.cells[r]).len() == columns,
        new.cursor_row == old.cursor_row,
        new.cursor_column == old.cursor_column,
        forall|r: int, c: int|
            0 <= r < rows && 0 <= c < columns && r < old.rows && c < old.columns ==> #[trigger] new.cells[r][c]
                == old.cells[r][c],
        forall|r: int, c: int|
            0 <= r < rows && 0 <= c < columns && !(r < old.rows && c < old.columns) ==> is_blank(
                #[trigger] new.cells[r][c],
            ),
{
}

/// A scroll that moves nothing (by no rows, or over a region no higher than the scroll)
/// leaves the grid as it was.
pub proof fn law_scroll_that_moves_nothing_keeps_grid(old: GridView, new: GridView, top: u64, bottom: u64, left: u64, right: u64, rows: i64)
    requires
        grid_wf(old),
        grid_scrolled(old, new, top, bottom, left, right, rows),
        !scroll_moves(top as int, bottom as int, rows as int),
    ensures
        new == old,
{
    assert forall|n: int| 0 <= n < old.rows implies #[trigger] new.cells[n] =~= old.cells[n] by {
        assert forall|c: int| 0 <= c < old.columns implies new.cells[n][c] == old.cells[n][c] by {
            assert(new.cells[n][c] == old.cells[n][c]);
        }
    }
    assert(new.cells =~= old.cells);
}

/// After `grid_line`, reading the row back gives the written run, each cell repeated by its
/// count, from the start column on; every other cell reads as before.
pub proof fn law_line_reads_back(old: GridView, new: GridView, row: usize, column_start: usize, cells: Seq<GridLineCell>)
    requires
        grid_wf(old),
        line_allowed(old, row, column_start, cells),
        grid_line_written(old, new, row, column_start, cells),
    ensures
        forall|k: int| 0 <= k < expand_cells(cells).len() ==> #[trigger] new.cells[row as int][column_start + k] == expand_cells(cells)[k],
        forall|n: int, c: int|
            0 <= n < old.rows && 0 <= c < old.columns && !(n == row && column_start <= c < column_start + expand_cells(cells).len())
                ==> #[trigger] new.cells[n][c] == old.cells[n][c],
{
    assert forall|k: int| 0 <= k < expand_cells(cells).len() implies #[trigger] new.cells[row as int][column_start + k] == expand_cells(cells)[k] by {
        assert(new.cells[row as int][column_start + k] == expand_cells(cells)[(column_start + k) - column_start]);
    }
}

impl Line {
    /// Makes the row `columns` cells wide, keeping what fits and padding with blanks.
    fn resize(&mut self, columns: usize)
        ensures
            final(self).cells().len() == columns,
            forall|c: int| 0 <= c < columns ==> if c < old(self).cells().len() {
                #[trigger] final(self).cells()[c] == old(self).cells()[c]
            } else {
                is_blank(final(self).cells()[c])
            },
    {
        if self.columns.len() > columns {
            self.columns.truncate(columns);
        }
        let ghost kept = self.columns@;
        while self.columns.len() < columns
            invariant
                kept.len() <= self.columns@.len() <= columns,
                kept.len() == if old(self).cells().len() > columns {
                    columns as int
                } else {
                    old(self).cells().len() as int
                },
                forall|c: int| 0 <= c < kept.len() ==> #[trigger] self.columns@[c] == old(self).cells()[c],
                forall|c: int| kept.len() <= c < self.columns@.len() ==> is_blank(#[trigger] self.columns@[c]),
            decreases columns - self.columns@.len(),
        {
            self.columns.push(GridLineCell::empty());
        }
    }
}

impl ExtLineGrid {
    /// Makes the grid `rows` by `columns`, as `grid_resize` asks.
    fn resize(&mut self, columns: usize, rows: usize)
        requires
            old(self).wf(),
        ensures
            final(self).wf(),
            final(self)@.rows == rows,
            final(self)@.columns == columns,
            final(self)@.cursor_row == old(self)@.cursor_row,
            final(self)@.cursor_column == old(self)@.cursor_column,
            resize_result(old(self)@, final(self)@),
    {
        let ghost start = self@;
        let mut n: usize = 0;
        let old_rows = self.buffer.len();
        assert forall|m: int| 0 <= m < old_rows implies #[trigger] old(self).buffer@[m].columns@ == start.cells[m]
            && start.cells[m].len() == start.columns by {}
        while n < old_rows
            invariant
                old_rows == start.rows,
                forall|m: int| 0 <= m < old_rows ==> #[trigger] old(self).buffer@[m].columns@ == start.cells[m]
                    && start.cells[m].len() == start.columns,
                n <= old_rows,
                self.buffer@.len() == old_rows,
                self.columns == start.columns,
                self.rows == start.rows,
                self.cursor_position == old(self).cursor_position,
                forall|m: int| 0 <= m < n ==> (#[trigger] self.buffer@[m]).columns@.len() == columns,
                forall|m: int| n <= m < old_rows ==> #[trigger] self.buffer@[m] == old(self).buffer@[m],
                forall|m: int, c: int|
                    0 <= m < n && 0 <= c < columns ==> if c < start.columns {
                        #[trigger] self.buffer@[m].columns@[c] == start.cells[m][c]
                    } else {
                        is_blank(self.buffer@[m].columns@[c])
                    },
            decreases old_rows - n,
        {
            self.buffer[n].resize(columns);
            n = n + 1;
        }
        if self.buffer.len() > rows {
            self.buffer.truncate(rows);
        }
        let ghost kept = self.buffer@.len();
        while self.buffer.len() < rows
            invariant
                kept <= self.buffer@.len() <= rows,
                kept == if start.rows > rows {
                    rows as int
                } else {
                    start.rows as int
                },
                self.cursor_position == old(self).cursor_position,
                forall|m: int| 0 <= m < self.buffer@.len() ==> (#[trigger] self.buffer@[m]).columns@.len() == columns,
                forall|m: int, c: int|
                    0 <= m < kept && 0 <= c < columns ==> if c < start.columns {
                        #[trigger] self.buffer@[m].columns@[c] == start.cells[m][c]
                    } else {
                        is_blank(self.buffer@[m].columns@[c])
                    },
                forall|m: int, c: int|
                    kept <= m < self.buffer@.len() && 0 <= c < columns ==> is_blank(#[trigger] self.buffer@[m].columns@[c]),
            decreases rows - self.buffer@.len(),
        {
            self.buffer.push(Line::new(columns));
        }
        self.columns = columns;
        self.rows = rows;
    }

    /// Writes the cell runs `cells` into row `row` from column `column_start` on, each run
    /// repeated by its count, as `grid_line` asks.
    fn update_line(&mut self, row: usize, column_start: usize, cells: &[GridLineCell])
        requires
            old(self).wf(),
            row < old(self)@.rows,
            column_start + expand_cells(cells@).len() <= old(self)@.columns,
        ensures
            final(self).wf(),
            final(self)@.rows == old(self)@.rows,
            final(self)@.columns == old(self)@.columns,
            final(self)@.cursor_row == old(self)@.cursor_row,
            final(self)@.cursor_column == old(self)@.cursor_column,
            line_written(old(self)@, final(self)@, row as int, column_start as int, expand_cells(cells@)),
    {
        let ghost start = self@;
        let mut column = column_start;
        let mut i: usize = 0;
        while i < cells.len()
            invariant
                i <= cells@.len(),
                row < start.rows,
                self.wf(),
                self@.rows == start.rows,
                self@.columns == start.columns,
                self@.cursor_row == start.cursor_row,
                self@.cursor_column == start.cursor_column,
                column_start + expand_cells(cells@).len() <= start.columns,
                column == column_start + expand_cells(cells@.subrange(0, i as int)).len(),
                line_written(start, self@, row as int, column_start as int, expand_cells(cells@.subrange(0, i as int))),
            decreases cells.len() - i,
        {
            let cell = &cells[i];
            let repeat = match cell.repeat {
                Some(n) => n,
                None => 1,
            };
            let ghost done = expand_cells(cells@.subrange(0, i as int));
            proof {
                assert(cells@.subrange(0, i + 1).drop_last() == cells@.subrange(0, i as int));
                assert(cells@.subrange(0, i + 1).last() == cells@[i as int]);
                lemma_expand_prefix_len(cells@, i + 1);
            }
            let mut j: u64 = 0;
            while j < repeat
                invariant
                    j <= repeat,
                    i < cells@.len(),
                    *cell == cells@[i as int],
                    done == expand_cells(cells@.subrange(0, i as int)),
                    repeat == repeat_count(cells@[i as int]),
                    row < start.rows,
                    self.wf(),
                    self@.rows == start.rows,
                    self@.columns == start.columns,
                    self@.cursor_row == start.cursor_row,
                    self@.cursor_column == start.cursor_column,
                    column_start + done.len() + repeat <= start.columns,
                    column == column_start + done.len() + j,
                    line_written(start, self@, row as int, column_start as int,
                        done + Seq::new(j as nat, |k: int| unrepeated(cells@[i as int]))),
                decreases repeat - j,
            {
                let mut c = cell.copy();
                c.repeat = None;
                let ghost before = self@;
                self.set_cell(row, column, c);
                let ghost run = done + Seq::new((j + 1) as nat, |k: int| unrepeated(cells@[i as int]));
                assert forall|n: int, d: int|
                    0 <= n < start.cells.len() && 0 <= d < start.cells[n].len() implies #[trigger] self@.cells[n][d]
                        == if n == row && column_start <= d < column_start + run.len() {
                        run[d - column_start]
                    } else {
                        start.cells[n][d]
                    } by {
                    if n == row && d == column {
                        assert(run[d - column_start] == unrepeated(cells@[i as int]));
                    } else if n == row && column_start <= d < column {
                        let prev = done + Seq::new(j as nat, |k: int| unrepeated(cells@[i as int]));
                        assert(run[d - column_start] == prev[d - column_start]);
                    }
                }
                column = column + 1;
                j = j + 1;
            }
            assert(done + Seq::new(repeat as nat, |k: int| unrepeated(cells@[i as int]))
                == expand_cells(cells@.subrange(0, i + 1)));
            i = i + 1;
        }
        assert(cells@.subrange(0, cells@.len() as int) == cells@);
    }
}

} // verus!

verus! {

/// Size and cursor are the same.
pub open spec fn same_frame(old: GridView, new: GridView) -> bool {
    new.rows == old.rows && new.columns == old.columns && new.cursor_row == old.cursor_row
        && new.cursor_column == old.cursor_column
}

/// `new` is `old` with every cell blank.
pub open spec fn grid_cleared(old: GridView, new: GridView) -> bool {
    &&& grid_wf(new)
    &&& same_frame(old, new)
    &&& forall|n: int, c: int| 0 <= n < new.rows && 0 <= c < new.columns ==> is_blank(#[trigger] new.cells[n][c])
}

/// `new` is `old` made `rows` by `columns`.
pub open spec fn grid_resized(old: GridView, new: GridView, columns: usize, rows: usize) -> bool {
    &&& grid_wf(new)
    &&& new.rows == rows
    &&& new.columns == columns
    &&& new.cursor_row == old.cursor_row
    &&& new.cursor_column == old.cursor_column
    &&& resize_result(old, new)
}

/// A fresh `rows` by `columns` grid: all blank, the cursor at the origin.
pub open spec fn grid_fresh(new: GridView, columns: usize, rows: usize) -> bool {
    &&& grid_wf(new)
    &&& new.rows == rows
    &&& new.columns == columns
    &&& new.cursor_row == 0
    &&& new.cursor_column == 0
    &&& forall|n: int, c: int| 0 <= n < rows && 0 <= c < columns ==> is_blank(#[trigger] new.cells[n][c])
}

/// Whether `grid_scroll` with these arguments can be applied to `g`.
pub open spec fn scroll_allowed(g: GridView, top: u64, bottom: u64, left: u64, right: u64, rows: i64) -> bool {
    &&& top <= usize::MAX
    &&& bottom <= usize::MAX
    &&& left <= usize::MAX
    &&& right <= usize::MAX
    &&& rows > i64::MIN
    &&& rows > 0 ==> rows <= bottom
    &&& rows < 0 ==> top + (-rows) <= usize::MAX
    &&& scroll_moves(top as int, bottom as int, rows as int) ==> bottom <= g.rows && left <= right
        <= g.columns
}

pub open spec fn grid_scrolled(old: GridView, new: GridView, top: u64, bottom: u64, left: u64, right: u64, rows: i64) -> bool {
    &&& grid_wf(new)
    &&& same_frame(old, new)
    &&& scroll_result(old.cells, new.cells, top as int, bottom as int, left as int, right as int, rows as int)
}

/// Whether `grid_line` with these arguments can be applied to `g`.
pub open spec fn line_allowed(g: GridView, row: usize, column_start: usize, cells: Seq<GridLineCell>) -> bool {
    row < g.rows && column_start + expand_cells(cells).len() <= g.columns
}

pub open spec fn grid_line_written(old: GridView, new: GridView, row: usize, column_start: usize, cells: Seq<GridLineCell>) -> bool {
    &&& grid_wf(new)
    &&& same_frame(old, new)
    &&& line_written(old, new, row as int, column_start as int, expand_cells(cells))
}

pub open spec fn grid_cursor_moved(old: GridView, new: GridView, row: usize, column: usize) -> bool {
    &&& grid_wf(new)
    &&& new.rows == old.rows
    &&& new.columns == old.columns
    &&& new.cells == old.cells
    &&& new.cursor_row == row
    &&& new.cursor_column == column
}

/// The grids by their numbers.
#[derive(Debug)]
pub struct ExtLineGridMap {
    map: std::collections::HashMap<u64, ExtLineGrid>,
}

impl ExtLineGridMap {
    /// The grids by their numbers.
    pub closed spec fn grids(&self) -> Map<u64, ExtLineGrid> {
        self.map@
    }

    /// Every grid is well formed.
    pub open spec fn wf(&self) -> bool {
        forall|g: u64| #[trigger] self.grids().contains_key(g) ==> self.grids()[g].wf()
    }

    pub fn new() -> (r: Self)
        ensures
            r.wf(),
            r.grids() == Map::<u64, ExtLineGrid>::empty(),
    {
        ExtLineGridMap { map: std::collections::HashMap::new() }
    }

    pub fn get(&self, grid: &u64) -> (r: Option<&ExtLineGrid>)
        ensures
            r.is_some() == self.grids().contains_key(*grid),
            r matches Some(g) ==> *g == self.grids()[*grid],
    {
        broadcast use vstd::std_specs::hash::group_hash_axioms;
        self.map.get(grid)
    }

    /// The default grid, number 1.
    pub fn get_default(&self) -> (r: Option<&ExtLineGrid>)
        ensures
            r.is_some() == self.grids().contains_key(1),
            r matches Some(g) ==> *g == self.grids()[1],
    {
        self.get(&1)
    }

    /// Takes grid `grid` out of the map.
    fn take(&mut self, grid: &u64) -> (r: Option<ExtLineGrid>)
        ensures
            final(self).grids() == old(self).grids().remove(*grid),
            r.is_some() == old(self).grids().contains_key(*grid),
            r matches Some(g) ==> g == old(self).grids()[*grid],
    {
        broadcast use vstd::std_specs::hash::group_hash_axioms;
        self.map.remove(grid)
    }

    fn put(&mut self, grid: u64, g: ExtLineGrid)
        ensures
            final(self).grids() == old(self).grids().insert(grid, g),
    {
        broadcast use vstd::std_specs::hash::group_hash_axioms;
        self.map.insert(grid, g);
    }

    /// Resizes grid `grid`, creating it where it does not exist yet.
    pub fn grid_resize(&mut self, grid: &u64, columns: usize, rows: usize)
        requires
            old(self).wf(),
        ensures
            final(self).wf(),
            final(self).grids().dom() == old(self).grids().dom().insert(*grid),
            forall|k: u64| k != *grid && #[trigger] old(self).grids().contains_key(k) ==> final(self).grids()[k] == old(self).grids()[k],
            old(self).grids().contains_key(*grid) ==> grid_resized(old(self).grids()[*grid]@, final(self).grids()[*grid]@, columns, rows),
            !old(self).grids().contains_key(*grid) ==> grid_fresh(final(self).grids()[*grid]@, columns, rows),
    {
        match self.take(grid) {
            Some(mut g) => {
                g.resize(columns, rows);
                self.put(*grid, g);
            },
            None => {
                self.put(*grid, ExtLineGrid::new(columns, rows));
            },
        }
        assert(final(self).grids().dom() =~= old(self).grids().dom().insert(*grid));
    }

    /// Clears grid `grid`; nothing changes when there is no such grid.
    pub fn grid_clear(&mut self, grid: &u64)
        requires
            old(self).wf(),
        ensures
            final(self).wf(),
            final(self).grids().dom() == old(self).grids().dom(),
            forall|k: u64| k != *grid && #[trigger] old(self).grids().contains_key(k) ==> final(self).grids()[k] == old(self).grids()[k],
            old(self).grids().contains_key(*grid) ==> grid_cleared(old(self).grids()[*grid]@, final(self).grids()[*grid]@),
    {
        if let Some(mut g) = self.take(grid) {
            g.clear();
            self.put(*grid, g);
        }
        assert(final(self).grids().dom() =~= old(self).grids().dom());
    }

    /// Removes grid `grid`.
    pub fn grid_destroy(&mut self, grid: &u64)
        requires
            old(self).wf(),
        ensures
            final(self).wf(),
            final(self).grids() == old(self).grids().remove(*grid),
    {
        let _ = self.take(grid);
    }

    /// Scrolls a region of grid `grid`; nothing changes when there is no such grid.
    #[allow(clippy::too_many_arguments)]
    pub fn grid_scroll(&mut self, grid: &u64, top: u64, bottom: u64, left: u64, right: u64, rows: i64, columns: i64)
        requires
            old(self).wf(),
            old(self).grids().contains_key(*grid) ==> scroll_allowed(old(self).grids()[*grid]@, top, bottom, left, right, rows),
        ensures
            final(self).wf(),
            final(self).grids().dom() == old(self).grids().dom(),
            forall|k: u64| k != *grid && #[trigger] old(self).grids().contains_key(k) ==> final(self).grids()[k] == old(self).grids()[k],
            old(self).grids().contains_key(*grid) ==> grid_scrolled(old(self).grids()[*grid]@, final(self).grids()[*grid]@, top, bottom, left, right, rows),
    {
        if let Some(mut g) = self.take(grid) {
            g.scroll(top, bottom, left, right, rows, columns);
            self.put(*grid, g);
        }
        assert(final(self).grids().dom() =~= old(self).grids().dom());
    }

    /// Writes cell runs into a row of grid `grid`; nothing changes when there is no such grid.
    pub fn grid_line(&mut self, grid: &u64, row: usize, column_start: usize, cells: &[GridLineCell])
        requires
            old(self).wf(),
            old(self).grids().contains_key(*grid) ==> line_allowed(old(self).grids()[*grid]@, row, column_start, cells@),
        ensures
            final(self).wf(),
            final(self).grids().dom() == old(self).grids().dom(),
            forall|k: u64| k != *grid && #[trigger] old(self).grids().contains_key(k) ==> final(self).grids()[k] == old(self).grids()[k],
            old(self).grids().contains_key(*grid) ==> grid_line_written(old(self).grids()[*grid]@, final(self).grids()[*grid]@, row, column_start, cells@),
    {
        if let Some(mut g) = self.take(grid) {
            g.update_line(row, column_start, cells);
            self.put(*grid, g);
        }
        assert(final(self).grids().dom() =~= old(self).grids().dom());
    }

    /// Moves the cursor of grid `grid`; nothing changes when there is no such grid.
    pub fn grid_cursor_goto(&mut self, grid: &u64, row: usize, column: usize)
        requires
            old(self).wf(),
        ensures
            final(self).wf(),
            final(self).grids().dom() == old(self).grids().dom(),
            forall|k: u64| k != *grid && #[trigger] old(self).grids().contains_key(k) ==> final(self).grids()[k] == old(self).grids()[k],
            old(self).grids().contains_key(*grid) ==> grid_cursor_moved(old(self).grids()[*grid]@, final(self).grids()[*grid]@, row, column),
    {
        if let Some(mut g) = self.take(grid) {
            g.update_cursor(row, column);
            self.put(*grid, g);
        }
        assert(final(self).grids().dom() =~= old(self).grids().dom());
    }
}

} // verus!
