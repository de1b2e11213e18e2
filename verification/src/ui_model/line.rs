//! One row of the UI model: its cells and the rendering items bound to them.

use std::rc::Rc;

use vstd::prelude::*;

use super::cell::{blank_cell, Cell, CellView};
use super::highlight::{default_highlight, Highlight};

verus! {

/// A row: the cells, the cell counts of the rendering items that start at each cell, the
/// start cell of the item each cell is bound to (`-1` for none), and whether it needs
/// redrawing.
#[derive(Debug)]
pub struct Line {
    pub line: Vec<Cell>,
    pub item_line: Vec<Vec<usize>>,
    pub cell_to_item: Vec<i32>,
    pub dirty_line: bool,
}

/// What a row holds.
pub struct LineView {
    pub cells: Seq<CellView>,
    pub items: Seq<Seq<usize>>,
    pub cell_to_item: Seq<i32>,
    pub dirty: bool,
}

/// The largest element of a non-empty sequence.
pub open spec fn seq_max(s: Seq<usize>) -> usize
    decreases s.len(),
{
    if s.len() <= 1 {
        s[0]
    } else if s.last() >= seq_max(s.drop_last()) {
        s.last()
    } else {
        seq_max(s.drop_last())
    }
}

/// The cells that the items starting at cell `k` cover are all bound to `k`.
pub open spec fn span_bound(l: LineView, k: int) -> bool {
    &&& l.cell_to_item[k] == k
    &&& k + seq_max(l.items[k]) <= l.cells.len()
    &&& forall|c: int| k <= c < k + seq_max(l.items[k]) ==> #[trigger] l.cell_to_item[c] == k
}

/// The row's item binding is consistent: a bound cell points at a start cell at or before it
/// whose items cover it, and the items starting at a cell cover a run of cells all bound to it.
pub open spec fn line_wf(l: LineView) -> bool {
    &&& l.items.len() == l.cells.len()
    &&& l.cell_to_item.len() == l.cells.len()
    &&& forall|i: int|
        0 <= i < l.cells.len() ==> (#[trigger] l.cell_to_item[i] == -1 || {
            let k = l.cell_to_item[i] as int;
            0 <= k <= i && l.items[k].len() > 0 && seq_max(l.items[k]) > i - k && k + seq_max(
                l.items[k],
            ) <= l.cells.len()
        })
    &&& forall|k: int| 0 <= k < l.cells.len() && (#[trigger] l.items[k]).len() > 0 ==> span_bound(l, k)
}

/// The row's parts have one entry per cell, and each binding is a cell of the row or `-1`.
pub open spec fn line_shape(l: LineView) -> bool {
    &&& l.items.len() == l.cells.len()
    &&& l.cell_to_item.len() == l.cells.len()
    &&& forall|i: int| 0 <= i < l.cells.len() ==> -1 <= #[trigger] l.cell_to_item[i] < l.cells.len()
}

/// A row of `columns` blank cells with the default highlight, bound to no item.
pub open spec fn fresh_line(columns: nat) -> LineView {
    LineView {
        cells: Seq::new(columns, |c: int| blank_cell(default_highlight())),
        items: Seq::new(columns, |c: int| Seq::<usize>::empty()),
        cell_to_item: Seq::new(columns, |c: int| -1i32),
        dirty: true,
    }
}

/// `l` with cells `[left, right]` blanked to highlight `hl` and marked for redrawing.
pub open spec fn cleared_line(l: LineView, left: int, right: int, hl: Highlight) -> LineView {
    LineView {
        cells: Seq::new(l.cells.len(), |c: int| if left <= c <= right { blank_cell(hl) } else { l.cells[c] }),
        dirty: true,
        ..l
    }
}

impl Line {
    pub open spec fn view_line(&self) -> LineView {
        LineView {
            cells: self.line@.map_values(|c: Cell| c@),
            items: self.item_line@.map_values(|v: Vec<usize>| v@),
            cell_to_item: self.cell_to_item@,
            dirty: self.dirty_line,
        }
    }

    pub open spec fn wf(&self) -> bool {
        line_wf(self.view_line())
    }

    pub fn new(columns: usize) -> (r: Self)
        ensures
            r.wf(),
            r.view_line() == fresh_line(columns as nat),
    {
        let mut line: Vec<Cell> = Vec::new();
        let mut item_line: Vec<Vec<usize>> = Vec::new();
        let mut cell_to_item: Vec<i32> = Vec::new();
        let mut i: usize = 0;
        while i < columns
            invariant
                i <= columns,
                line@.len() == i,
                item_line@.len() == i,
                cell_to_item@.len() == i,
                forall|c: int| 0 <= c < i ==> #[trigger] line@[c]@ == blank_cell(default_highlight()),
                forall|c: int| 0 <= c < i ==> #[trigger] cell_to_item@[c] == -1,
                forall|c: int| 0 <= c < i ==> (#[trigger] item_line@[c])@.len() == 0,
            decreases columns - i,
        {
            line.push(Cell::new_empty());
            item_line.push(Vec::new());
            cell_to_item.push(-1);
            i = i + 1;
        }
        let r = Line { line, item_line, cell_to_item, dirty_line: true };
        assert(r.view_line().cells =~= fresh_line(columns as nat).cells);
        assert forall|c: int| 0 <= c < columns implies #[trigger] r.view_line().items[c] == Seq::<usize>::empty() by {
            assert(r.view_line().items[c] =~= Seq::<usize>::empty());
        }
        assert(r.view_line().items =~= fresh_line(columns as nat).items);
        assert(r.view_line().cell_to_item =~= fresh_line(columns as nat).cell_to_item);
        r
    }

    /// The start cell of the item cell `cell_idx` is bound to, or `-1`.
    pub fn cell_to_item(&self, cell_idx: usize) -> (r: i32)
        requires
            self.wf(),
            cell_idx < self.view_line().cells.len(),
        ensures
            r == self.view_line().cell_to_item[cell_idx as int],
    {
        self.cell_to_item[cell_idx]
    }

    pub fn is_binded_to_item(&self, cell_idx: usize) -> (r: bool)
        requires
            self.wf(),
            cell_idx < self.view_line().cells.len(),
        ensures
            r == (self.view_line().cell_to_item[cell_idx as int] >= 0),
    {
        self.cell_to_item[cell_idx] >= 0
    }

    /// How many cells from `start_idx` on the item there covers: 1 for an unbound cell.
    pub fn item_len_from_idx(&self, start_idx: usize) -> (r: usize)
        requires
            self.wf(),
            start_idx < self.view_line().cells.len(),
        ensures
            r == if self.view_line().cell_to_item[start_idx as int] >= 0 {
                let k = self.view_line().cell_to_item[start_idx as int] as int;
                seq_max(self.view_line().items[k]) - (start_idx - k)
            } else {
                1
            },
            r >= 1,
    {
        let item_idx = self.cell_to_item[start_idx];
        if item_idx >= 0 {
            let k = item_idx as usize;
            assert(self.item_line@[k as int]@ == self.view_line().items[k as int]);
            let cells_count = max_of(&self.item_line[k]);
            cells_count - (start_idx - k)
        } else {
            1
        }
    }

    /// Clears cells `[left, right]` to highlight `default_hl`.
    pub fn clear(&mut self, left: usize, right: usize, default_hl: &Rc<Highlight>)
        requires
            old(self).wf(),
            left <= right < old(self).view_line().cells.len(),
        ensures
            final(self).wf(),
            final(self).view_line() == cleared_line(old(self).view_line(), left as int, right as int, **default_hl),
    {
        let ghost start = self.view_line();
        let mut c = left;
        let n = self.line.len();
        while c <= right
            invariant
                left <= c <= right + 1,
                right < n,
                right < start.cells.len(),
                self.line@.len() == start.cells.len(),
                self.item_line == old(self).item_line,
                self.cell_to_item == old(self).cell_to_item,
                forall|d: int|
                    0 <= d < start.cells.len() ==> if left <= d < c {
                        #[trigger] self.line@[d]@ == blank_cell(**default_hl)
                    } else {
                        self.line@[d]@ == start.cells[d]
                    },
            decreases right + 1 - c,
        {
            self.line[c].clear(crate::shared::rc_clone(default_hl));
            c = c + 1;
        }
        self.dirty_line = true;
        assert(self.view_line().cells =~= cleared_line(start, left as int, right as int, **default_hl).cells);
    }
}

impl Line {
    /// A copy of this row.
    pub fn copy(&self) -> (r: Self)
        ensures
            r.view_line() == self.view_line(),
    {
        let mut line: Vec<Cell> = Vec::new();
        let mut i: usize = 0;
        while i < self.line.len()
            invariant
                i <= self.line@.len(),
                line@.len() == i,
                forall|c: int| 0 <= c < i ==> #[trigger] line@[c]@ == self.line@[c]@,
            decreases self.line@.len() - i,
        {
            line.push(self.line[i].copy());
            i = i + 1;
        }
        let mut item_line: Vec<Vec<usize>> = Vec::new();
        let mut j: usize = 0;
        while j < self.item_line.len()
            invariant
                j <= self.item_line@.len(),
                item_line@.len() == j,
                forall|c: int| 0 <= c < j ==> #[trigger] item_line@[c]@ == self.item_line@[c]@,
            decreases self.item_line@.len() - j,
        {
            item_line.push(copy_counts(&self.item_line[j]));
            j = j + 1;
        }
        let cell_to_item = copy_counts_i32(&self.cell_to_item);
        let r = Line { line, item_line, cell_to_item, dirty_line: self.dirty_line };
        assert(r.view_line().cells =~= self.view_line().cells);
        assert(r.view_line().items =~= self.view_line().items);
        r
    }

    /// Exchanges cells `[left, right]` with `target`, marking the cells of `target` dirty.
    pub fn swap_with(&mut self, target: &mut Self, left: usize, right: usize)
        requires
            old(self).wf(),
            old(target).wf(),
            left <= right,
            right < old(self).view_line().cells.len(),
            right < old(target).view_line().cells.len(),
        ensures
            final(self).wf(),
            final(target).wf(),
            final(self).view_line().items == old(self).view_line().items,
            final(self).view_line().cell_to_item == old(self).view_line().cell_to_item,
            final(self).view_line().dirty == old(self).view_line().dirty,
            final(target).view_line().items == old(target).view_line().items,
            final(target).view_line().cell_to_item == old(target).view_line().cell_to_item,
            final(target).view_line().dirty,
            final(self).view_line().cells.len() == old(self).view_line().cells.len(),
            final(target).view_line().cells.len() == old(target).view_line().cells.len(),
            forall|c: int|
                0 <= c < old(self).view_line().cells.len() ==> #[trigger] final(self).view_line().cells[c] == if left <= c <= right {
                    old(target).view_line().cells[c]
                } else {
                    old(self).view_line().cells[c]
                },
            forall|c: int|
                0 <= c < old(target).view_line().cells.len() ==> #[trigger] final(target).view_line().cells[c] == if left <= c <= right {
                    CellView { dirty: true, ..old(self).view_line().cells[c] }
                } else {
                    old(target).view_line().cells[c]
                },
    {
        let ghost s0 = self.view_line();
        let ghost t0 = target.view_line();
        let n = self.line.len();
        let mut c = left;
        while c <= right
            invariant
                left <= c <= right + 1,
                right < n,
                n == s0.cells.len(),
                right < t0.cells.len(),
                self.line@.len() == s0.cells.len(),
                target.line@.len() == t0.cells.len(),
                self.item_line == old(self).item_line,
                self.cell_to_item == old(self).cell_to_item,
                self.dirty_line == old(self).dirty_line,
                target.item_line == old(target).item_line,
                target.cell_to_item == old(target).cell_to_item,
                target.dirty_line == old(target).dirty_line,
                forall|d: int| 0 <= d < s0.cells.len() ==> #[trigger] self.line@[d]@ == if left <= d < c {
                    t0.cells[d]
                } else {
                    s0.cells[d]
                },
                forall|d: int| 0 <= d < t0.cells.len() ==> #[trigger] target.line@[d]@ == if left <= d < c {
                    CellView { dirty: true, ..s0.cells[d] }
                } else {
                    t0.cells[d]
                },
            decreases right + 1 - c,
        {
            let mut a = self.line[c].copy();
            let b = target.line[c].copy();
            a.dirty = true;
            self.line.set(c, b);
            target.line.set(c, a);
            c = c + 1;
        }
        target.dirty_line = true;
        assert forall|d: int| 0 <= d < s0.cells.len() implies #[trigger] self.view_line().cells[d] == self.line@[d]@ by {}
        assert forall|d: int| 0 <= d < t0.cells.len() implies #[trigger] target.view_line().cells[d] == target.line@[d]@ by {}
    }
}

/// The text a cell contributes to its row's text: its characters, or a space when empty.
pub open spec fn cell_text(c: CellView) -> Seq<char> {
    if c.ch.len() > 0 {
        c.ch
    } else {
        seq![' ']
    }
}

/// The bytes a cell's text takes in UTF-8.
pub open spec fn cell_text_bytes(c: CellView) -> usize {
    if c.ch.len() > 0 {
        vstd::utf8::encode_utf8(c.ch).len() as usize
    } else {
        1
    }
}

/// The text of the first `n` cells, second halves of double-width characters left out.
pub open spec fn styled_text(cells: Seq<CellView>, n: int) -> Seq<char>
    decreases n,
{
    if n <= 0 {
        Seq::empty()
    } else if cells[n - 1].double_width {
        styled_text(cells, n - 1)
    } else {
        styled_text(cells, n - 1) + cell_text(cells[n - 1])
    }
}

/// For each byte of that text, the cell it comes from.
pub open spec fn byte_cells(cells: Seq<CellView>, n: int) -> Seq<usize>
    decreases n,
{
    if n <= 0 {
        Seq::empty()
    } else if cells[n - 1].double_width {
        byte_cells(cells, n - 1)
    } else {
        byte_cells(cells, n - 1) + Seq::new(cell_text_bytes(cells[n - 1]) as nat, |k: int| (n - 1) as usize)
    }
}

proof fn lemma_encode_utf8_concat(a: Seq<char>, b: Seq<char>)
    ensures
        vstd::utf8::encode_utf8(a + b) == vstd::utf8::encode_utf8(a) + vstd::utf8::encode_utf8(b),
    decreases a.len(),
{
    if a.len() == 0 {
        assert(a + b =~= b);
        assert(vstd::utf8::encode_utf8(a) =~= Seq::<u8>::empty());
    } else {
        assert((a + b).drop_first() =~= a.drop_first() + b);
        lemma_encode_utf8_concat(a.drop_first(), b);
        assert((a + b)[0] == a[0]);
    }
}

/// The text of the first `n` cells takes as many bytes as `byte_cells` lists.
proof fn lemma_byte_cells_count_bytes(cells: Seq<CellView>, n: int)
    requires
        vstd::utf8::encode_utf8(styled_text(cells, n)).len() <= usize::MAX,
    ensures
        byte_cells(cells, n).len() == vstd::utf8::encode_utf8(styled_text(cells, n)).len(),
    decreases n,
{
    if n > 0 {
        if !cells[n - 1].double_width {
            let t = cell_text(cells[n - 1]);
            lemma_encode_utf8_concat(styled_text(cells, n - 1), t);
            lemma_byte_cells_count_bytes(cells, n - 1);
            if cells[n - 1].ch.len() == 0 {
                let sp = seq![' '];
                assert(sp.drop_first() =~= Seq::<char>::empty());
                assert(vstd::utf8::encode_utf8(sp.drop_first()) =~= Seq::<u8>::empty());
                assert(vstd::utf8::has_width_1_encoding(' ' as u32));
                assert(vstd::utf8::encode_utf8(sp).len() == 1);
            }
        } else {
            lemma_byte_cells_count_bytes(cells, n - 1);
        }
    } else {
        assert(vstd::utf8::encode_utf8(styled_text(cells, n)) =~= Seq::<u8>::empty());
    }
}

/// A row as text for shaping: the text of its cells and, for each byte of it, the cell it
/// comes from.
#[derive(Debug)]
pub struct StyledLine {
    pub line_str: String,
    pub cell_to_byte: Vec<usize>,
}

impl StyledLine {
    /// The text of `line`: each cell's characters, a space for an empty cell, second halves of
    /// double-width characters left out.
    pub fn from(line: &Line) -> (r: Self)
        ensures
            r.line_str@ == styled_text(line.view_line().cells, line.view_line().cells.len() as int),
            r.cell_to_byte@ == byte_cells(line.view_line().cells, line.view_line().cells.len() as int),
            vstd::utf8::encode_utf8(r.line_str@).len() <= usize::MAX ==> r.cell_to_byte@.len() == vstd::utf8::encode_utf8(
                r.line_str@,
            ).len(),
    {
        let ghost cells = line.view_line().cells;
        let mut line_str = String::new();
        let mut cell_to_byte: Vec<usize> = Vec::new();
        let mut i: usize = 0;
        while i < line.line.len()
            invariant
                i <= line.line@.len(),
                cells == line.view_line().cells,
                line_str@ == styled_text(cells, i as int),
                cell_to_byte@ == byte_cells(cells, i as int),
            decreases line.line@.len() - i,
        {
            let cell = &line.line[i];
            assert(cell@ == cells[i as int]);
            if !cell.double_width {
                let len: usize = if !cell.ch.as_str().is_empty() {
                    line_str = line_str.concat(cell.ch.as_str());
                    cell.ch.as_str().len()
                } else {
                    crate::text::string_push(&mut line_str, ' ');
                    1
                };
                let ghost before = cell_to_byte@;
                let mut k: usize = 0;
                while k < len
                    invariant
                        k <= len,
                        cell_to_byte@ == before + Seq::new(k as nat, |j: int| i),
                    decreases len - k,
                {
                    cell_to_byte.push(i);
                    assert(before + Seq::new((k + 1) as nat, |j: int| i) =~= (before + Seq::new(k as nat, |j: int| i)).push(i));
                    k = k + 1;
                }
                assert(len == cell_text_bytes(cells[i as int]));
                assert(Seq::new(len as nat, |j: int| i) =~= Seq::new(cell_text_bytes(cells[i as int]) as nat, |j: int| ((i + 1) - 1) as usize));
            }
            i = i + 1;
        }
        proof {
            if vstd::utf8::encode_utf8(line_str@).len() <= usize::MAX {
                lemma_byte_cells_count_bytes(cells, cells.len() as int);
            }
        }
        StyledLine { line_str, cell_to_byte }
    }
}

/// The style of a run of a row's text: the attributes its cells share, whether it is a run of
/// blanks or no run yet, and the byte range of the text it spans. Colors are 24-bit RGB values.
#[derive(Debug, Clone, Copy)]
pub struct StyleAttr {
    pub italic: bool,
    pub bold: bool,
    pub foreground: Option<u32>,
    pub background: Option<u32>,
    pub empty: bool,
    pub space: bool,
    pub start_idx: usize,
    pub end_idx: usize,
}

/// No run yet.
pub open spec fn no_style() -> StyleAttr {
    StyleAttr {
        italic: false,
        bold: false,
        foreground: None,
        background: None,
        empty: true,
        space: false,
        start_idx: 0,
        end_idx: 0,
    }
}

/// The style of cell `c` drawn with colors `fg` and `bg`, spanning bytes `[start, end)`.
pub open spec fn cell_style(start: usize, end: usize, c: CellView, fg: Option<u32>, bg: Option<u32>) -> StyleAttr {
    StyleAttr {
        italic: c.hl.italic,
        bold: c.hl.bold,
        foreground: fg,
        background: bg,
        empty: false,
        space: c.ch.len() == 0,
        start_idx: start,
        end_idx: end,
    }
}

/// Two runs draw alike: same slant, weight, colors, and both runs or both none.
pub open spec fn same_style(a: StyleAttr, b: StyleAttr) -> bool {
    &&& a.italic == b.italic
    &&& a.bold == b.bold
    &&& a.foreground == b.foreground
    &&& a.empty == b.empty
    &&& a.background == b.background
}

/// Run `cur` meeting cell `c` at bytes `[start, end)`: a blank after blanks, or a cell drawn
/// alike, extends it; any other cell starts a new run, which is given back.
pub open spec fn next_style(cur: StyleAttr, start: usize, end: usize, c: CellView, fg: Option<u32>, bg: Option<u32>) -> (
    StyleAttr,
    Option<StyleAttr>,
) {
    if cur.space && c.ch.len() == 0 {
        (StyleAttr { end_idx: end, ..cur }, None)
    } else {
        let s = cell_style(start, end, c, fg, bg);
        if !same_style(cur, s) {
            (cur, Some(s))
        } else {
            (StyleAttr { end_idx: end, ..cur }, None)
        }
    }
}

impl StyleAttr {
    pub fn new() -> (r: Self)
        ensures
            r == no_style(),
    {
        StyleAttr {
            italic: false,
            bold: false,
            foreground: None,
            background: None,
            empty: true,
            space: false,
            start_idx: 0,
            end_idx: 0,
        }
    }

    /// The style of `cell`, drawn with colors `foreground` and `background`, spanning bytes
    /// `[start_idx, end_idx)`.
    pub fn from(start_idx: usize, end_idx: usize, cell: &Cell, foreground: Option<u32>, background: Option<u32>) -> (r: Self)
        ensures
            r == cell_style(start_idx, end_idx, cell@, foreground, background),
    {
        StyleAttr {
            italic: cell.hl.italic,
            bold: cell.hl.bold,
            foreground,
            background,
            empty: false,
            space: cell.ch.as_str().is_empty(),
            start_idx,
            end_idx,
        }
    }

    /// Whether this run and `other` draw alike.
    pub fn same_as(&self, other: &StyleAttr) -> (r: bool)
        ensures
            r == same_style(*self, *other),
    {
        self.italic == other.italic && self.bold == other.bold && self.foreground == other.foreground && self.empty
            == other.empty && self.background == other.background
    }

    /// Extends this run over `cell` at bytes `[start_idx, end_idx)` where the cell continues it,
    /// or gives back the run the cell starts.
    pub fn next(
        &mut self,
        start_idx: usize,
        end_idx: usize,
        cell: &Cell,
        foreground: Option<u32>,
        background: Option<u32>,
    ) -> (r: Option<StyleAttr>)
        ensures
            (*final(self), r) == next_style(*old(self), start_idx, end_idx, cell@, foreground, background),
    {
        if self.space && cell.ch.as_str().is_empty() {
            self.end_idx = end_idx;
            return None;
        }
        let style_attr = StyleAttr::from(start_idx, end_idx, cell, foreground, background);
        if !self.same_as(&style_attr) {
            Some(style_attr)
        } else {
            self.end_idx = end_idx;
            None
        }
    }
}

/// The finished runs and the open run after the first `n` cells, each cell drawn with the
/// colors `colors` gives it; second halves of double-width characters are skipped.
pub open spec fn runs_upto(cells: Seq<CellView>, colors: Seq<(Option<u32>, Option<u32>)>, n: int) -> (Seq<StyleAttr>, StyleAttr)
    decreases n,
{
    if n <= 0 {
        (Seq::empty(), no_style())
    } else {
        let (done, cur) = runs_upto(cells, colors, n - 1);
        if cells[n - 1].double_width {
            (done, cur)
        } else {
            let start = byte_cells(cells, n - 1).len() as usize;
            let end = (byte_cells(cells, n - 1).len() + cell_text_bytes(cells[n - 1])) as usize;
            let (cur2, started) = next_style(cur, start, end, cells[n - 1], colors[n - 1].0, colors[n - 1].1);
            match started {
                Some(s) => (if cur2.empty { done } else { done.push(cur2) }, s),
                None => (done, cur2),
            }
        }
    }
}

/// The styled runs of a row, in order: every run that has cells.
pub open spec fn style_runs_of(cells: Seq<CellView>, colors: Seq<(Option<u32>, Option<u32>)>) -> Seq<StyleAttr> {
    let (done, cur) = runs_upto(cells, colors, cells.len() as int);
    if cur.empty {
        done
    } else {
        done.push(cur)
    }
}

proof fn lemma_byte_cells_grow(cells: Seq<CellView>, i: int, n: int)
    requires
        0 <= i <= n,
    ensures
        byte_cells(cells, i).len() <= byte_cells(cells, n).len(),
    decreases n - i,
{
    if i < n {
        lemma_byte_cells_grow(cells, i, n - 1);
    }
}

/// Run `r` is drawn as cell `c` with colors `color`: same slant, weight and colors.
pub open spec fn draws_cell(r: StyleAttr, c: CellView, color: (Option<u32>, Option<u32>)) -> bool {
    &&& r.italic == c.hl.italic
    &&& r.bold == c.hl.bold
    &&& r.foreground == color.0
    &&& r.background == color.1
}

/// Each of the first `n` cells with text whose bytes begin inside run `r` is drawn as `r` is.
pub open spec fn draws_cells_it_covers(
    cells: Seq<CellView>,
    colors: Seq<(Option<u32>, Option<u32>)>,
    r: StyleAttr,
    n: int,
) -> bool {
    forall|i: int|
        0 <= i < n && !cells[i].double_width && cells[i].ch.len() > 0 && r.start_idx <= #[trigger] byte_cells(
            cells,
            i,
        ).len() < r.end_idx ==> draws_cell(r, cells[i], colors[i])
}

/// Every cell's text takes at most `usize::MAX` bytes, as a `String` does.
pub open spec fn cell_texts_fit(cells: Seq<CellView>) -> bool {
    forall|i: int| 0 <= i < cells.len() ==> vstd::utf8::encode_utf8(#[trigger] cells[i].ch).len() <= usize::MAX
}

/// A cell that is not the second half of a double-width character takes at least one byte,
/// so every later cell's text begins after its own.
proof fn lemma_cell_starts_before(cells: Seq<CellView>, i: int, m: int)
    requires
        0 <= i < m <= cells.len(),
        !cells[i].double_width,
        cell_texts_fit(cells),
    ensures
        byte_cells(cells, i).len() < byte_cells(cells, m).len(),
{
    let ch = cells[i].ch;
    if ch.len() > 0 {
        let e = vstd::utf8::encode_scalar(ch[0] as u32);
        assert(e.len() >= 1);
        assert(vstd::utf8::encode_utf8(ch) == e + vstd::utf8::encode_utf8(ch.drop_first()));
        assert(vstd::utf8::encode_utf8(ch).len() <= usize::MAX);
    }
    assert(cell_text_bytes(cells[i]) >= 1);
    assert(byte_cells(cells, i + 1).len() == byte_cells(cells, i).len() + cell_text_bytes(cells[i]));
    lemma_byte_cells_grow(cells, i + 1, m);
}

/// What `runs_upto` keeps after `n` cells: the finished runs end before the open run begins,
/// the open run ends where the text of the first `n` cells does, and every run is drawn as the
/// cells it covers.
#[verifier::spinoff_prover]
#[verifier::rlimit(30)]
proof fn lemma_runs_upto_draw_their_cells(cells: Seq<CellView>, colors: Seq<(Option<u32>, Option<u32>)>, n: int)
    requires
        0 <= n <= cells.len(),
        colors.len() == cells.len(),
        byte_cells(cells, cells.len() as int).len() <= usize::MAX,
        cell_texts_fit(cells),
    ensures
        ({
            let (done, cur) = runs_upto(cells, colors, n);
            &&& cur.empty ==> cur == no_style() && done.len() == 0 && byte_cells(cells, n).len() == 0
            &&& !cur.empty && done.len() == 0 ==> cur.start_idx == 0
            &&& done.len() > 0 ==> done[0].start_idx == 0 && done.last().end_idx == cur.start_idx
            &&& forall|k: int| 0 <= k < done.len() - 1 ==> (#[trigger] done[k]).end_idx == done[k + 1].start_idx
            &&& !cur.empty ==> cur.start_idx <= cur.end_idx && cur.end_idx == byte_cells(cells, n).len()
            &&& !cur.empty ==> draws_cells_it_covers(cells, colors, cur, n)
            &&& forall|k: int|
                0 <= k < done.len() ==> (#[trigger] done[k]).end_idx <= cur.start_idx && draws_cells_it_covers(
                    cells,
                    colors,
                    done[k],
                    n,
                )
        }),
    decreases n,
{
    if n > 0 {
        lemma_runs_upto_draw_their_cells(cells, colors, n - 1);
        lemma_byte_cells_grow(cells, n, cells.len() as int);
        lemma_byte_cells_grow(cells, n - 1, n);
        let (done, cur) = runs_upto(cells, colors, n - 1);
        let b0 = byte_cells(cells, n - 1).len();
        let b1 = byte_cells(cells, n).len();
        assert forall|i: int| 0 <= i < n - 1 && !cells[i].double_width implies #[trigger] byte_cells(cells, i).len()
            < b0 by {
            lemma_cell_starts_before(cells, i, n - 1);
        }
        if !cells[n - 1].double_width {
            let c = cells[n - 1];
            let start = b0 as usize;
            let end = (b0 + cell_text_bytes(c)) as usize;
            assert(b1 == b0 + cell_text_bytes(c));
            let s = cell_style(start, end, c, colors[n - 1].0, colors[n - 1].1);
            let (done2, cur2) = runs_upto(cells, colors, n);
            if cur.space && c.ch.len() == 0 {
                assert(cur2 == StyleAttr { end_idx: end, ..cur });
                assert(done2 == done);
            } else if !same_style(cur, s) {
                assert(cur2 == s);
                assert(done2 == if cur.empty { done } else { done.push(cur) });
                if !cur.empty {
                    assert forall|k: int| 0 <= k < done2.len() - 1 implies (#[trigger] done2[k]).end_idx
                        == done2[k + 1].start_idx by {
                        if k < done.len() - 1 {
                            assert(done2[k] == done[k] && done2[k + 1] == done[k + 1]);
                        } else {
                            assert(done2[k] == done.last() && done2[k + 1] == cur);
                        }
                    }
                }
            } else {
                assert(cur2 == StyleAttr { end_idx: end, ..cur });
                assert(done2 == done);
            }
        }
    }
}

/// The styled runs cover the row's text from its first byte to its last, one after another, and
/// every run is drawn as each cell it covers: a cell with text whose bytes begin inside a run
/// has that run's slant, weight and colors, so no cell is drawn in another cell's style.
pub proof fn law_runs_carry_the_style_of_their_cells(cells: Seq<CellView>, colors: Seq<(Option<u32>, Option<u32>)>)
    requires
        colors.len() == cells.len(),
        byte_cells(cells, cells.len() as int).len() <= usize::MAX,
        cell_texts_fit(cells),
    ensures
        style_runs_of(cells, colors).len() == 0 ==> byte_cells(cells, cells.len() as int).len() == 0,
        style_runs_of(cells, colors).len() > 0 ==> style_runs_of(cells, colors)[0].start_idx == 0
            && style_runs_of(cells, colors).last().end_idx == byte_cells(cells, cells.len() as int).len(),
        forall|k: int|
            0 <= k < style_runs_of(cells, colors).len() - 1 ==> (#[trigger] style_runs_of(cells, colors)[k]).end_idx
                == style_runs_of(cells, colors)[k + 1].start_idx,
        forall|k: int|
            0 <= k < style_runs_of(cells, colors).len() ==> draws_cells_it_covers(
                cells,
                colors,
                #[trigger] style_runs_of(cells, colors)[k],
                cells.len() as int,
            ),
{
    lemma_runs_upto_draw_their_cells(cells, colors, cells.len() as int);
    let (done, cur) = runs_upto(cells, colors, cells.len() as int);
    let runs = style_runs_of(cells, colors);
    if !cur.empty {
        assert forall|k: int| 0 <= k < runs.len() implies draws_cells_it_covers(cells, colors, #[trigger] runs[k], cells.len() as int) by {
            if k < done.len() {
                assert(runs[k] == done[k]);
            }
        }
        assert forall|k: int| 0 <= k < runs.len() - 1 implies (#[trigger] runs[k]).end_idx == runs[k + 1].start_idx by {
            if k < done.len() - 1 {
                assert(runs[k] == done[k] && runs[k + 1] == done[k + 1]);
            } else {
                assert(runs[k] == done.last() && runs[k + 1] == cur);
            }
        }
    }
}

/// The styled runs of `line`'s text for shaping, each cell drawn with the colors `colors`
/// gives it: runs of cells drawn alike, blanks joining the run of blanks before them.
pub fn style_runs(line: &Line, colors: &Vec<(Option<u32>, Option<u32>)>) -> (r: Vec<StyleAttr>)
    requires
        colors@.len() == line.view_line().cells.len(),
        byte_cells(line.view_line().cells, line.view_line().cells.len() as int).len() <= usize::MAX,
    ensures
        r@ == style_runs_of(line.view_line().cells, colors@),
{
    let ghost cells = line.view_line().cells;
    let ghost n = cells.len() as int;
    let mut runs: Vec<StyleAttr> = Vec::new();
    let mut style_attr = StyleAttr::new();
    let mut byte_offset: usize = 0;
    let mut i: usize = 0;
    while i < line.line.len()
        invariant
            i <= n,
            n == line.line@.len(),
            cells == line.view_line().cells,
            colors@.len() == n,
            byte_cells(cells, n).len() <= usize::MAX,
            byte_offset == byte_cells(cells, i as int).len(),
            (runs@, style_attr) == runs_upto(cells, colors@, i as int),
        decreases n - i,
    {
        let cell = &line.line[i];
        assert(cell@ == cells[i as int]);
        proof {
            lemma_byte_cells_grow(cells, i + 1, n);
        }
        if !cell.double_width {
            let len: usize = if !cell.ch.as_str().is_empty() {
                cell.ch.as_str().len()
            } else {
                1
            };
            assert(len == cell_text_bytes(cells[i as int]));
            let end = byte_offset + len;
            let next = style_attr.next(byte_offset, end, cell, colors[i].0, colors[i].1);
            match next {
                Some(next) => {
                    if !style_attr.empty {
                        runs.push(style_attr);
                    }
                    style_attr = next;
                },
                None => {},
            }
            byte_offset = end;
        }
        i = i + 1;
    }
    if !style_attr.empty {
        runs.push(style_attr);
    }
    runs
}

/// A run of shaped text of a row, by its byte offset and byte length in the row's text.
#[derive(Debug, Clone, Copy, PartialEq, Eq)]
pub struct TextItem {
    pub offset: usize,
    pub length: usize,
}

/// Shaped runs that share cells, and the cells `[start_cell, end_cell]` they cover.
#[derive(Debug, Clone, Copy, PartialEq, Eq)]
pub struct ItemPosition {
    pub count: usize,
    pub start_cell: usize,
    pub end_cell: usize,
}

/// Each run lies within the text: it is not empty and ends within it.
pub open spec fn items_fit(items: Seq<TextItem>, text_len: int) -> bool {
    forall|k: int| 0 <= k < items.len() ==> (#[trigger] items[k]).length >= 1 && items[k].offset + items[k].length <= text_len
}

/// Each byte belongs to a cell of the row, and later bytes to the same or later cells.
pub open spec fn byte_cells_fit(byte_cells: Seq<usize>, cells: int) -> bool {
    &&& forall|b: int| 0 <= b < byte_cells.len() ==> #[trigger] byte_cells[b] < cells
    &&& forall|a: int, b: int| 0 <= a <= b < byte_cells.len() ==> #[trigger] byte_cells[a] <= #[trigger] byte_cells[b]
}

/// The first cell of run `k`.
pub open spec fn item_first_cell(items: Seq<TextItem>, byte_cells: Seq<usize>, k: int) -> usize {
    byte_cells[items[k].offset as int]
}

/// The last cell of run `k`.
pub open spec fn item_last_cell(items: Seq<TextItem>, byte_cells: Seq<usize>, k: int) -> usize {
    byte_cells[items[k].offset + items[k].length - 1]
}

/// Extends a group from run `j` on while the next run starts at or before the group's last
/// cell: the group's last cell and the first run after it.
pub open spec fn group_end(items: Seq<TextItem>, byte_cells: Seq<usize>, j: int, end: usize) -> (usize, int)
    decreases items.len() - j,
{
    if j < 0 || j >= items.len() || item_first_cell(items, byte_cells, j) > end {
        (end, j)
    } else {
        let e = item_last_cell(items, byte_cells, j);
        group_end(items, byte_cells, j + 1, if e > end { e } else { end })
    }
}

proof fn lemma_group_end(items: Seq<TextItem>, byte_cells: Seq<usize>, j: int, end: usize, cells: int)
    requires
        0 <= j <= items.len(),
        items_fit(items, byte_cells.len() as int),
        byte_cells_fit(byte_cells, cells),
        end < cells,
    ensures
        group_end(items, byte_cells, j, end).0 >= end,
        group_end(items, byte_cells, j, end).0 < cells,
        j <= group_end(items, byte_cells, j, end).1 <= items.len(),
        group_end(items, byte_cells, j, end).1 < items.len() ==> item_first_cell(
            items,
            byte_cells,
            group_end(items, byte_cells, j, end).1,
        ) > group_end(items, byte_cells, j, end).0,
    decreases items.len() - j,
{
    if j < items.len() && item_first_cell(items, byte_cells, j) <= end {
        let k = items[j];
        assert(byte_cells[k.offset + k.length - 1] < cells);
        let e = item_last_cell(items, byte_cells, j);
        lemma_group_end(items, byte_cells, j + 1, if e > end { e } else { end }, cells);
    }
}

/// The groups of runs from run `i` on, in order.
pub open spec fn positions_from(items: Seq<TextItem>, byte_cells: Seq<usize>, i: int) -> Seq<ItemPosition>
    decreases items.len() - i,
{
    if i < 0 || i >= items.len() {
        Seq::empty()
    } else {
        let start = item_first_cell(items, byte_cells, i);
        let (end, next) = group_end(items, byte_cells, i + 1, item_last_cell(items, byte_cells, i));
        if next <= i || next > items.len() {
            Seq::empty()
        } else {
            seq![ItemPosition { count: (next - i) as usize, start_cell: start, end_cell: end }] + positions_from(
                items,
                byte_cells,
                next,
            )
        }
    }
}

/// The groups cover cells of the row in order: each a non-empty range ending before the next
/// starts.
pub open spec fn positions_ok(ps: Seq<ItemPosition>, cells: int) -> bool {
    &&& forall|k: int| 0 <= k < ps.len() ==> (#[trigger] ps[k]).start_cell <= ps[k].end_cell < cells && ps[k].count >= 1
    &&& forall|k: int| 0 <= k < ps.len() - 1 ==> (#[trigger] ps[k]).end_cell < ps[k + 1].start_cell
}

proof fn lemma_positions_ok(items: Seq<TextItem>, byte_cells: Seq<usize>, i: int, cells: int)
    requires
        0 <= i <= items.len(),
        items.len() <= usize::MAX,
        items_fit(items, byte_cells.len() as int),
        byte_cells_fit(byte_cells, cells),
    ensures
        positions_ok(positions_from(items, byte_cells, i), cells),
        positions_from(items, byte_cells, i).len() > 0 ==> positions_from(items, byte_cells, i)[0].start_cell
            == item_first_cell(items, byte_cells, i),
    decreases items.len() - i,
{
    if i < items.len() {
        let k = items[i];
        assert(byte_cells[k.offset as int] <= byte_cells[k.offset + k.length - 1]);
        assert(byte_cells[k.offset + k.length - 1] < cells);
        let last = item_last_cell(items, byte_cells, i);
        lemma_group_end(items, byte_cells, i + 1, last, cells);
        let (end, next) = group_end(items, byte_cells, i + 1, last);
        lemma_positions_ok(items, byte_cells, next, cells);
        let head = ItemPosition { count: (next - i) as usize, start_cell: item_first_cell(items, byte_cells, i), end_cell: end };
        let rest = positions_from(items, byte_cells, next);
        let ps = positions_from(items, byte_cells, i);
        assert(ps == seq![head] + rest);
        assert forall|m: int| 0 <= m < ps.len() implies (#[trigger] ps[m]).start_cell <= ps[m].end_cell < cells && ps[m].count >= 1 by {
            if m > 0 {
                assert(ps[m] == rest[m - 1]);
            }
        }
        assert forall|m: int| 0 <= m < ps.len() - 1 implies (#[trigger] ps[m]).end_cell < ps[m + 1].start_cell by {
            if m > 0 {
                assert(ps[m] == rest[m - 1]);
                assert(ps[m + 1] == rest[m]);
            } else {
                assert(ps[1] == rest[0]);
            }
        }
    }
}

/// The groups of runs `items` make over the row whose bytes map to cells by `byte_cells`.
fn item_positions(items: &[TextItem], byte_cells: &[usize], Ghost(cells): Ghost<int>) -> (r: Vec<ItemPosition>)
    requires
        items_fit(items@, byte_cells@.len() as int),
        byte_cells_fit(byte_cells@, cells),
    ensures
        r@ == positions_from(items@, byte_cells@, 0),
        items@.len() <= usize::MAX,
{
    let mut out: Vec<ItemPosition> = Vec::new();
    let mut i: usize = 0;
    while i < items.len()
        invariant
            i <= items@.len(),
            items_fit(items@, byte_cells@.len() as int),
            byte_cells_fit(byte_cells@, cells),
            positions_from(items@, byte_cells@, 0) == out@ + positions_from(items@, byte_cells@, i as int),
        decreases items@.len() - i,
    {
        let first = items[i];
        assert(items@[i as int] == first);
        let start = byte_cells[first.offset];
        let mut end = byte_cells[first.offset + first.length - 1];
        assert(byte_cells@[first.offset + first.length - 1] < cells);
        let ghost last = end;
        let mut j: usize = i + 1;
        while j < items.len() && byte_cells[items[j].offset] <= end
            invariant
                i < j <= items@.len(),
                items_fit(items@, byte_cells@.len() as int),
                byte_cells_fit(byte_cells@, cells),
                end < cells,
                group_end(items@, byte_cells@, i + 1, last) == group_end(items@, byte_cells@, j as int, end),
            decreases items@.len() - j,
        {
            let next = items[j];
            assert(items@[j as int] == next);
            assert(byte_cells@[next.offset + next.length - 1] < cells);
            let next_end = byte_cells[next.offset + next.length - 1];
            if next_end > end {
                end = next_end;
            }
            j = j + 1;
        }
        let pos = ItemPosition { count: j - i, start_cell: start, end_cell: end };
        let ghost rest = positions_from(items@, byte_cells@, j as int);
        assert(positions_from(items@, byte_cells@, i as int) == seq![pos] + rest);
        let ghost before = out@;
        out.push(pos);
        assert(before + (seq![pos] + rest) =~= out@ + rest);
        i = j;
    }
    assert(out@ + positions_from(items@, byte_cells@, i as int) =~= out@);
    out
}

/// The items a group's start cell gets: one per run, each covering the group's cells.
pub open spec fn group_items(p: ItemPosition) -> Seq<usize> {
    Seq::new(p.count as nat, |i: int| (p.end_cell - p.start_cell + 1) as usize)
}

/// Whether a group's cells must be bound again: its start cell does not start items covering
/// exactly the group's cells, or its end cell is bound to nothing.
pub open spec fn needs_binding(l: LineView, p: ItemPosition) -> bool {
    let s = l.cell_to_item[p.start_cell as int];
    ||| s != p.start_cell
    ||| l.items[s as int].len() == 0
    ||| seq_max(l.items[s as int]) != p.end_cell - p.start_cell + 1
    ||| l.cell_to_item[p.end_cell as int] == -1
}

/// Whether a cell of the group waits to be redrawn.
pub open spec fn group_dirty(l: LineView, p: ItemPosition) -> bool {
    exists|c: int| p.start_cell <= c <= p.end_cell && #[trigger] l.cells[c].dirty
}

/// The cell marked for redrawing.
pub open spec fn dirtied(c: CellView) -> CellView {
    CellView { dirty: true, ..c }
}

/// What a cell `c` of group `p` holds after merging: its cell, its binding and its items.
/// A group that needs binding gets all its cells bound to its start, which gets the group's
/// items; a group already bound gets its items renewed where a cell waits to be redrawn.
pub open spec fn group_cell_after(old: LineView, p: ItemPosition, c: int) -> (CellView, i32, Seq<usize>) {
    if needs_binding(old, p) {
        (dirtied(old.cells[c]), p.start_cell as i32, if c == p.start_cell { group_items(p) } else { Seq::empty() })
    } else if group_dirty(old, p) {
        (
            if c == p.start_cell { dirtied(old.cells[c]) } else { old.cells[c] },
            old.cell_to_item[c],
            if c == p.start_cell { group_items(p) } else { old.items[c] },
        )
    } else {
        (old.cells[c], old.cell_to_item[c], old.items[c])
    }
}

/// What a cell in no group holds after merging: unbound, and marked for redrawing if it was
/// bound.
pub open spec fn lone_cell_after(old: LineView, c: int) -> (CellView, i32, Seq<usize>) {
    if old.cell_to_item[c] >= 0 {
        (dirtied(old.cells[c]), -1i32, Seq::empty())
    } else {
        (old.cells[c], old.cell_to_item[c], old.items[c])
    }
}

/// Cell `c` of `l` holds `t`.
pub open spec fn cell_is(l: LineView, c: int, t: (CellView, i32, Seq<usize>)) -> bool {
    l.cells[c] == t.0 && l.cell_to_item[c] == t.1 && l.items[c] == t.2
}

impl Line {
    /// Unbinds cell `c` from its item; tells whether it was bound.
    fn set_cell_to_empty(&mut self, c: usize) -> (r: bool)
        requires
            line_shape(old(self).view_line()),
            c < old(self).view_line().cells.len(),
        ensures
            r == (old(self).view_line().cell_to_item[c as int] >= 0),
            final(self).view_line().cells.len() == old(self).view_line().cells.len(),
            final(self).view_line().items.len() == old(self).view_line().items.len(),
            final(self).view_line().cell_to_item.len() == old(self).view_line().cell_to_item.len(),
            final(self).view_line().dirty == old(self).view_line().dirty,
            line_shape(final(self).view_line()),
            cell_is(final(self).view_line(), c as int, lone_cell_after(old(self).view_line(), c as int)),
            forall|d: int| 0 <= d < old(self).view_line().cells.len() && d != c ==> #[trigger] cell_is(
                final(self).view_line(),
                d,
                (old(self).view_line().cells[d], old(self).view_line().cell_to_item[d], old(self).view_line().items[d]),
            ),
    {
        let ghost l0 = self.view_line();
        if self.cell_to_item[c] >= 0 {
            self.item_line.set(c, Vec::new());
            self.cell_to_item.set(c, -1);
            self.line[c].dirty = true;
            proof {
                let l1 = self.view_line();
                assert(l1.items[c as int] =~= Seq::<usize>::empty());
                assert(l1.cells[c as int] == dirtied(l0.cells[c as int]));
            }
            true
        } else {
            false
        }
    }
}

/// `count` copies of `value`.
fn repeated_count(count: usize, value: usize) -> (r: Vec<usize>)
    ensures
        r@ == Seq::new(count as nat, |i: int| value),
{
    let mut r: Vec<usize> = Vec::new();
    let mut i: usize = 0;
    while i < count
        invariant
            i <= count,
            r@ == Seq::new(i as nat, |j: int| value),
        decreases count - i,
    {
        r.push(value);
        assert(r@ =~= Seq::new((i + 1) as nat, |j: int| value));
        i = i + 1;
    }
    r
}

impl Line {
    /// Binds the cells of group `p` to its start and gives the start the group's items.
    fn initialize_cell_item(&mut self, p: &ItemPosition)
        requires
            line_shape(old(self).view_line()),
            p.start_cell <= p.end_cell < old(self).view_line().cells.len(),
            p.start_cell <= i32::MAX,
        ensures
            final(self).view_line().cells.len() == old(self).view_line().cells.len(),
            final(self).view_line().items.len() == old(self).view_line().items.len(),
            final(self).view_line().cell_to_item.len() == old(self).view_line().cell_to_item.len(),
            final(self).view_line().dirty == old(self).view_line().dirty,
            line_shape(final(self).view_line()),
            forall|c: int|
                #![trigger final(self).view_line().items[c]]
                p.start_cell <= c <= p.end_cell ==> cell_is(
                final(self).view_line(),
                c,
                (
                    dirtied(old(self).view_line().cells[c]),
                    p.start_cell as i32,
                    if c == p.start_cell { group_items(*p) } else { Seq::empty() },
                ),
            ),
            forall|d: int| 0 <= d < old(self).view_line().cells.len() && !(p.start_cell <= d <= p.end_cell) ==> #[trigger] cell_is(
                final(self).view_line(),
                d,
                (old(self).view_line().cells[d], old(self).view_line().cell_to_item[d], old(self).view_line().items[d]),
            ),
    {
        let ghost l0 = self.view_line();
        let n = self.line.len();
        let mut i = p.start_cell;
        while i <= p.end_cell
            invariant
                p.start_cell <= i <= p.end_cell + 1,
                p.end_cell < l0.cells.len(),
                l0.cells.len() == n,
                l0.items.len() == n,
                l0.cell_to_item.len() == n,
                p.start_cell <= i32::MAX,
                self.line@.len() == l0.cells.len(),
                self.item_line@.len() == l0.items.len(),
                self.cell_to_item@.len() == l0.cell_to_item.len(),
                self.dirty_line == l0.dirty,
                self.item_line@.map_values(|v: Vec<usize>| v@) == l0.items,
                forall|d: int| 0 <= d < l0.cells.len() ==> #[trigger] self.line@[d]@ == if p.start_cell <= d < i {
                    dirtied(l0.cells[d])
                } else {
                    l0.cells[d]
                },
                forall|d: int| 0 <= d < l0.cells.len() ==> #[trigger] self.cell_to_item@[d] == if p.start_cell <= d < i {
                    p.start_cell as i32
                } else {
                    l0.cell_to_item[d]
                },
            decreases p.end_cell + 1 - i,
        {
            let ghost before = self.line@;
            assert(before[i as int]@ == l0.cells[i as int]);
            self.line[i].dirty = true;
            assert(self.line@[i as int]@ == dirtied(l0.cells[i as int]));
            assert forall|d: int| 0 <= d < l0.cells.len() && d != i implies #[trigger] self.line@[d] == before[d] by {}
            self.cell_to_item.set(i, p.start_cell as i32);
            i = i + 1;
        }
        let mut j = p.start_cell + 1;
        while j <= p.end_cell
            invariant
                p.start_cell < j <= p.end_cell + 1,
                p.end_cell < l0.cells.len(),
                l0.cells.len() == n,
                l0.items.len() == n,
                self.line@.len() == n,
                self.cell_to_item@.len() == n,
                self.dirty_line == l0.dirty,
                forall|d: int| 0 <= d < l0.cells.len() ==> #[trigger] self.line@[d]@ == if p.start_cell <= d <= p.end_cell {
                    dirtied(l0.cells[d])
                } else {
                    l0.cells[d]
                },
                forall|d: int| 0 <= d < l0.cells.len() ==> #[trigger] self.cell_to_item@[d] == if p.start_cell <= d <= p.end_cell {
                    p.start_cell as i32
                } else {
                    l0.cell_to_item[d]
                },
                self.item_line@.len() == l0.items.len(),
                forall|d: int| 0 <= d < l0.items.len() ==> #[trigger] self.item_line@[d]@ == if p.start_cell < d < j {
                    Seq::<usize>::empty()
                } else {
                    l0.items[d]
                },
            decreases p.end_cell + 1 - j,
        {
            self.item_line.set(j, Vec::new());
            j = j + 1;
        }
        let cells_count = p.end_cell - p.start_cell + 1;
        self.item_line.set(p.start_cell, repeated_count(p.count, cells_count));
        proof {
            let l1 = self.view_line();
            assert(l1.items[p.start_cell as int] =~= group_items(*p));
            assert forall|c: int| p.start_cell < c <= p.end_cell implies #[trigger] l1.items[c] =~= Seq::<usize>::empty() by {}
        }
    }

    /// Binds the cells of group `p` where they are not bound to items covering exactly them,
    /// and otherwise renews the items where a cell waits to be redrawn; tells whether anything
    /// changed.
    fn set_cell_to_item(&mut self, p: &ItemPosition) -> (r: bool)
        requires
            line_shape(old(self).view_line()),
            p.start_cell <= p.end_cell < old(self).view_line().cells.len(),
            old(self).view_line().cells.len() <= i32::MAX,
            ({
                let s = old(self).view_line().cell_to_item[p.start_cell as int];
                s >= 0 && old(self).view_line().items[s as int].len() > 0 ==> seq_max(old(self).view_line().items[s as int]) <= i32::MAX
            }),
        ensures
            r == (needs_binding(old(self).view_line(), *p) || group_dirty(old(self).view_line(), *p)),
            final(self).view_line().cells.len() == old(self).view_line().cells.len(),
            final(self).view_line().items.len() == old(self).view_line().items.len(),
            final(self).view_line().cell_to_item.len() == old(self).view_line().cell_to_item.len(),
            final(self).view_line().dirty == old(self).view_line().dirty,
            line_shape(final(self).view_line()),
            forall|c: int| p.start_cell <= c <= p.end_cell ==> #[trigger] cell_is(
                final(self).view_line(),
                c,
                group_cell_after(old(self).view_line(), *p, c),
            ),
            forall|d: int| 0 <= d < old(self).view_line().cells.len() && !(p.start_cell <= d <= p.end_cell) ==> #[trigger] cell_is(
                final(self).view_line(),
                d,
                (old(self).view_line().cells[d], old(self).view_line().cell_to_item[d], old(self).view_line().items[d]),
            ),
    {
        let ghost l0 = self.view_line();
        let start_item_idx = self.cell_to_item[p.start_cell];
        let start_item_cells_count: i32 = if start_item_idx >= 0 {
            let k = start_item_idx as usize;
            assert(self.item_line@[k as int]@ == l0.items[k as int]);
            if self.item_line[k].len() == 0 {
                -1
            } else {
                max_of(&self.item_line[k]) as i32
            }
        } else {
            -1
        };
        let end_item_idx = self.cell_to_item[p.end_cell];
        let cell_count: i32 = (p.end_cell - p.start_cell) as i32 + 1;
        proof {
            let s = l0.cell_to_item[p.start_cell as int];
            assert(start_item_idx == s);
            assert(end_item_idx == l0.cell_to_item[p.end_cell as int]);
            assert(s >= 0 && l0.items[s as int].len() > 0 ==> start_item_cells_count == seq_max(l0.items[s as int]));
            assert(s >= 0 && l0.items[s as int].len() == 0 ==> start_item_cells_count == -1);
        }
        if start_item_idx != p.start_cell as i32 || cell_count != start_item_cells_count || start_item_idx == -1
            || end_item_idx == -1 {
            assert(needs_binding(l0, *p));
            self.initialize_cell_item(p);
            proof {
                let l1 = self.view_line();
                assert forall|c: int| p.start_cell <= c <= p.end_cell implies #[trigger] cell_is(
                    l1,
                    c,
                    group_cell_after(l0, *p, c),
                ) by {
                    assert(l1.items[c] == (if c == p.start_cell { group_items(*p) } else { Seq::empty() }));
                }
            }
            true
        } else {
            assert(!needs_binding(l0, *p));
            let n = self.line.len();
            let mut any_dirty = false;
            let mut c = p.start_cell;
            while c <= p.end_cell
                invariant
                    p.start_cell <= c <= p.end_cell + 1,
                    p.end_cell < l0.cells.len(),
                    l0.cells.len() == n,
                    self.view_line() == l0,
                    any_dirty == exists|d: int| p.start_cell <= d < c && #[trigger] l0.cells[d].dirty,
                decreases p.end_cell + 1 - c,
            {
                assert(self.line@[c as int]@ == l0.cells[c as int]);
                if self.line[c].dirty {
                    assert(l0.cells[c as int].dirty);
                    any_dirty = true;
                } else {
                    assert forall|d: int| p.start_cell <= d < c + 1 && #[trigger] l0.cells[d].dirty implies p.start_cell <= d < c by {}
                }
                c = c + 1;
            }
            if any_dirty {
                self.item_line.set(p.start_cell, repeated_count(p.count, cell_count as usize));
                self.line[p.start_cell].dirty = true;
                proof {
                    let l1 = self.view_line();
                    assert(l1.items[p.start_cell as int] =~= group_items(*p));
                }
                true
            } else {
                false
            }
        }
    }
}

/// Cell `c` lies in no group.
pub open spec fn uncovered(ps: Seq<ItemPosition>, c: int) -> bool {
    forall|k: int| 0 <= k < ps.len() ==> !((#[trigger] ps[k]).start_cell <= c && c <= ps[k].end_cell)
}

/// Whether merging changed anything in the first `done` groups or in the cells before `cell`
/// that lie in no group.
pub open spec fn merge_changes(old: LineView, ps: Seq<ItemPosition>, done: int, cell: int) -> bool {
    ||| exists|k: int| 0 <= k < done && (needs_binding(old, #[trigger] ps[k]) || group_dirty(old, ps[k]))
    ||| exists|c: int| 0 <= c < cell && uncovered(ps, c) && #[trigger] old.cell_to_item[c] >= 0
}

/// `new` is `old` merged with the groups `ps` as far as the first `done` groups and the cells
/// before `cell`; the cells from `cell` on are as they were.
#[verifier::opaque]
pub open spec fn merged_upto(old: LineView, new: LineView, ps: Seq<ItemPosition>, done: int, cell: int) -> bool {
    &&& new.cells.len() == old.cells.len()
    &&& new.items.len() == old.items.len()
    &&& new.cell_to_item.len() == old.cell_to_item.len()
    &&& forall|k: int, c: int|
        #![trigger group_cell_after(old, ps[k], c)]
        0 <= k < done && ps[k].start_cell <= c <= ps[k].end_cell ==> cell_is(new, c, group_cell_after(old, ps[k], c))
    &&& forall|c: int| 0 <= c < cell && uncovered(ps, c) ==> cell_is(new, c, #[trigger] lone_cell_after(old, c))
    &&& forall|c: int| cell <= c < old.cells.len() ==> cell_is(new, c, (old.cells[c], old.cell_to_item[c], #[trigger] old.items[c]))
    &&& new.dirty == (old.dirty || merge_changes(old, ps, done, cell))
}

/// `new` is `old` merged with the groups `ps`: the cells of each group bound as the group says,
/// the cells in no group unbound, and the row marked for redrawing where anything changed.
pub open spec fn merged(old: LineView, new: LineView, ps: Seq<ItemPosition>) -> bool {
    merged_upto(old, new, ps, ps.len() as int, old.cells.len() as int)
}

proof fn lemma_positions_sorted(ps: Seq<ItemPosition>, cells: int)
    requires
        positions_ok(ps, cells),
    ensures
        forall|k: int, m: int| 0 <= k < m < ps.len() ==> (#[trigger] ps[k]).end_cell < (#[trigger] ps[m]).start_cell,
{
    assert forall|k: int, m: int| 0 <= k < m < ps.len() implies (#[trigger] ps[k]).end_cell < (#[trigger] ps[m]).start_cell by {
        lemma_positions_gap(ps, cells, k, m);
    }
}

proof fn lemma_positions_gap(ps: Seq<ItemPosition>, cells: int, k: int, m: int)
    requires
        positions_ok(ps, cells),
        0 <= k < m < ps.len(),
    ensures
        ps[k].end_cell < ps[m].start_cell,
    decreases m - k,
{
    assert(ps[k].end_cell < ps[k + 1].start_cell);
    if k + 1 < m {
        lemma_positions_gap(ps, cells, k + 1, m);
        assert(ps[k + 1].start_cell <= ps[k + 1].end_cell);
    }
}

proof fn lemma_seq_max_constant(n: nat, v: usize)
    requires
        n >= 1,
    ensures
        seq_max(Seq::new(n, |i: int| v)) == v,
    decreases n,
{
    if n > 1 {
        lemma_seq_max_constant((n - 1) as nat, v);
        assert(Seq::new(n, |i: int| v).drop_last() =~= Seq::new((n - 1) as nat, |i: int| v));
    }
}

impl Line {
    /// Binds the cells to the shaped runs `items` of the row's text as `old_items` maps its
    /// bytes to cells: each group of runs sharing cells gets its cells bound to its first cell,
    /// cells in no group are unbound, and what changes is marked for redrawing.
    #[verifier::spinoff_prover]
    #[verifier::rlimit(40)]
    pub fn merge(&mut self, old_items: &StyledLine, items: &[TextItem])
        requires
            old(self).wf(),
            old(self).view_line().cells.len() <= i32::MAX,
            items_fit(items@, old_items.cell_to_byte@.len() as int),
            byte_cells_fit(old_items.cell_to_byte@, old(self).view_line().cells.len() as int),
        ensures
            final(self).wf(),
            merged(old(self).view_line(), final(self).view_line(), positions_from(items@, old_items.cell_to_byte@, 0)),
    {
        let ghost l0 = self.view_line();
        let n = self.line.len();
        let positions = item_positions(items, &old_items.cell_to_byte, Ghost(n as int));
        let ghost ps = positions@;
        proof {
            lemma_positions_ok(items@, old_items.cell_to_byte@, 0, n as int);
            lemma_positions_sorted(ps, n as int);
            reveal(merged_upto);
        }
        let mut k: usize = 0;
        let mut cell_idx: usize = 0;
        while cell_idx < n
            invariant
                n == l0.cells.len(),
                n <= i32::MAX,
                line_wf(l0),
                ps == positions@,
                positions_ok(ps, n as int),
                forall|a: int, b: int| 0 <= a < b < ps.len() ==> (#[trigger] ps[a]).end_cell < (#[trigger] ps[b]).start_cell,
                k <= ps.len(),
                cell_idx <= n,
                k > 0 ==> ps[k - 1].end_cell < cell_idx,
                k < ps.len() ==> cell_idx <= ps[k as int].start_cell,
                merged_upto(l0, self.view_line(), ps, k as int, cell_idx as int),
                self.view_line().cells.len() == n,
                line_shape(self.view_line()),
                items_bounded(self.view_line(), n as int),
            decreases n - cell_idx,
        {
            let ghost cur = self.view_line();
            if k < positions.len() && cell_idx == positions[k].start_cell {
                let p = positions[k];
                assert(p == ps[k as int]);
                proof {
                    lemma_group_untouched(l0, cur, ps, k as int, n as int);
                }
                let dirty = self.set_cell_to_item(&p);
                let ghost after = self.view_line();
                self.dirty_line = self.dirty_line || dirty;
                proof {
                    lemma_group_step(l0, cur, after, self.view_line(), ps, k as int, n as int);
                }
                cell_idx = p.end_cell + 1;
                k = k + 1;
            } else {
                proof {
                    lemma_lone_untouched(l0, cur, ps, k as int, cell_idx as int, n as int);
                }
                let dirty = self.set_cell_to_empty(cell_idx);
                let ghost after = self.view_line();
                self.dirty_line = self.dirty_line || dirty;
                proof {
                    lemma_lone_step(l0, cur, after, self.view_line(), ps, k as int, cell_idx as int, n as int);
                }
                cell_idx = cell_idx + 1;
            }
        }
        proof {
            if k < ps.len() {
                assert(ps[k as int].start_cell < n);
            }
            lemma_merged_wf(l0, self.view_line(), ps, n as int);
        }
    }
}

/// Every item count held in `l` is at most `n`.
pub open spec fn items_bounded(l: LineView, n: int) -> bool {
    forall|j: int| 0 <= j < n && (#[trigger] l.items[j]).len() > 0 ==> seq_max(l.items[j]) <= n
}

/// The groups before `k` are merged and the cells of group `k` are as they were, so the group
/// is judged as it was and its count fits.
proof fn lemma_group_untouched(l0: LineView, cur: LineView, ps: Seq<ItemPosition>, k: int, n: int)
    requires
        n == l0.cells.len(),
        n <= i32::MAX,
        line_shape(cur),
        positions_ok(ps, n),
        0 <= k < ps.len(),
        merged_upto(l0, cur, ps, k, ps[k].start_cell as int),
        items_bounded(cur, n),
    ensures
        needs_binding(cur, ps[k]) == needs_binding(l0, ps[k]),
        group_dirty(cur, ps[k]) == group_dirty(l0, ps[k]),
        forall|c: int| ps[k].start_cell <= c <= ps[k].end_cell ==> #[trigger] group_cell_after(cur, ps[k], c)
            == group_cell_after(l0, ps[k], c),
        ({
            let s = cur.cell_to_item[ps[k].start_cell as int];
            s >= 0 && cur.items[s as int].len() > 0 ==> seq_max(cur.items[s as int]) <= i32::MAX
        }),
{
    reveal(merged_upto);
    let p = ps[k];
    assert forall|c: int| p.start_cell <= c <= p.end_cell implies #[trigger] cur.cells[c] == l0.cells[c]
        && cur.cell_to_item[c] == l0.cell_to_item[c] && cur.items[c] == l0.items[c] by {
        assert(cell_is(cur, c, (l0.cells[c], l0.cell_to_item[c], l0.items[c])));
    }
    assert(cell_is(cur, p.start_cell as int, (l0.cells[p.start_cell as int], l0.cell_to_item[p.start_cell as int], l0.items[p.start_cell as int])));
    assert(cell_is(cur, p.end_cell as int, (l0.cells[p.end_cell as int], l0.cell_to_item[p.end_cell as int], l0.items[p.end_cell as int])));
    let s0 = cur.cell_to_item[p.start_cell as int];
    if s0 >= 0 && cur.items[s0 as int].len() > 0 {
        assert(seq_max(cur.items[s0 as int]) <= n);
    }
    assert(needs_binding(cur, p) == needs_binding(l0, p));
    assert(group_dirty(cur, p) == group_dirty(l0, p)) by {
        if group_dirty(cur, p) {
            let c = choose|c: int| p.start_cell <= c <= p.end_cell && #[trigger] cur.cells[c].dirty;
            assert(l0.cells[c].dirty);
        }
        if group_dirty(l0, p) {
            let c = choose|c: int| p.start_cell <= c <= p.end_cell && #[trigger] l0.cells[c].dirty;
            assert(cur.cells[c].dirty);
        }
    }
    assert forall|c: int| p.start_cell <= c <= p.end_cell implies #[trigger] group_cell_after(cur, p, c)
        == group_cell_after(l0, p, c) by {}
}

/// Merging group `k` into a row merged up to its start gives a row merged up to its end.
proof fn lemma_group_step(
    l0: LineView,
    cur: LineView,
    after: LineView,
    nl: LineView,
    ps: Seq<ItemPosition>,
    k: int,
    n: int,
)
    requires
        n == l0.cells.len(),
        line_shape(l0),
        positions_ok(ps, n),
        forall|a: int, b: int| 0 <= a < b < ps.len() ==> (#[trigger] ps[a]).end_cell < (#[trigger] ps[b]).start_cell,
        0 <= k < ps.len(),
        cur.cells.len() == n,
        merged_upto(l0, cur, ps, k, ps[k].start_cell as int),
        items_bounded(cur, n),
        after.cells.len() == n,
        after.items.len() == n,
        after.cell_to_item.len() == n,
        forall|c: int| ps[k].start_cell <= c <= ps[k].end_cell ==> #[trigger] cell_is(after, c, group_cell_after(cur, ps[k], c)),
        forall|d: int| 0 <= d < n && !(ps[k].start_cell <= d <= ps[k].end_cell) ==> #[trigger] cell_is(
            after,
            d,
            (cur.cells[d], cur.cell_to_item[d], cur.items[d]),
        ),
        forall|c: int| ps[k].start_cell <= c <= ps[k].end_cell ==> #[trigger] group_cell_after(cur, ps[k], c)
            == group_cell_after(l0, ps[k], c),
        needs_binding(cur, ps[k]) == needs_binding(l0, ps[k]),
        group_dirty(cur, ps[k]) == group_dirty(l0, ps[k]),
        nl.cells == after.cells,
        nl.items == after.items,
        nl.cell_to_item == after.cell_to_item,
        nl.dirty == (cur.dirty || needs_binding(l0, ps[k]) || group_dirty(l0, ps[k])),
    ensures
        merged_upto(l0, nl, ps, k + 1, ps[k].end_cell + 1),
        items_bounded(nl, n),
{
    reveal(merged_upto);
    let p = ps[k];
    let next = (p.end_cell + 1) as int;
    assert forall|j: int| 0 <= j < n && (#[trigger] nl.items[j]).len() > 0 implies seq_max(nl.items[j]) <= n by {
        if p.start_cell <= j <= p.end_cell {
            assert(cell_is(after, j, group_cell_after(cur, p, j)));
            if j == p.start_cell && (needs_binding(cur, p) || group_dirty(cur, p)) {
                lemma_seq_max_constant(p.count as nat, (p.end_cell - p.start_cell + 1) as usize);
            }
        } else {
            assert(cell_is(after, j, (cur.cells[j], cur.cell_to_item[j], cur.items[j])));
        }
    }
    assert forall|kk: int, c: int|
        #![trigger group_cell_after(l0, ps[kk], c)]
        0 <= kk < k + 1 && ps[kk].start_cell <= c <= ps[kk].end_cell implies cell_is(nl, c, group_cell_after(l0, ps[kk], c)) by {
        if kk < k {
            assert(ps[kk].end_cell < p.start_cell);
            assert(cell_is(after, c, (cur.cells[c], cur.cell_to_item[c], cur.items[c])));
        } else {
            assert(cell_is(after, c, group_cell_after(cur, p, c)));
        }
    }
    assert forall|c: int| 0 <= c < next && uncovered(ps, c) implies cell_is(nl, c, #[trigger] lone_cell_after(l0, c)) by {
        if c >= p.start_cell {
            assert(!(ps[k].start_cell <= c && c <= ps[k].end_cell));
        }
        assert(cell_is(after, c, (cur.cells[c], cur.cell_to_item[c], cur.items[c])));
    }
    assert forall|c: int| next <= c < n implies cell_is(nl, c, (l0.cells[c], l0.cell_to_item[c], #[trigger] l0.items[c])) by {
        assert(cell_is(after, c, (cur.cells[c], cur.cell_to_item[c], cur.items[c])));
    }
    assert((exists|c: int| 0 <= c < next && uncovered(ps, c) && #[trigger] l0.cell_to_item[c] >= 0) == (exists|c: int|
        0 <= c < p.start_cell && uncovered(ps, c) && #[trigger] l0.cell_to_item[c] >= 0)) by {
        if exists|c: int| 0 <= c < next && uncovered(ps, c) && #[trigger] l0.cell_to_item[c] >= 0 {
            let c = choose|c: int| 0 <= c < next && uncovered(ps, c) && #[trigger] l0.cell_to_item[c] >= 0;
            if c >= p.start_cell {
                assert(!(ps[k].start_cell <= c && c <= ps[k].end_cell));
            }
        }
    }
    assert((exists|kk: int| 0 <= kk < k + 1 && (needs_binding(l0, #[trigger] ps[kk]) || group_dirty(l0, ps[kk]))) == (
    (exists|kk: int| 0 <= kk < k && (needs_binding(l0, #[trigger] ps[kk]) || group_dirty(l0, ps[kk]))) || needs_binding(l0, p)
        || group_dirty(l0, p))) by {
        if needs_binding(l0, p) || group_dirty(l0, p) {
            assert(needs_binding(l0, ps[k]) || group_dirty(l0, ps[k]));
        }
    }
}

/// A cell before group `k` and after the groups before it lies in no group, and is as it was.
proof fn lemma_lone_untouched(l0: LineView, cur: LineView, ps: Seq<ItemPosition>, k: int, cell: int, n: int)
    requires
        n == l0.cells.len(),
        positions_ok(ps, n),
        forall|a: int, b: int| 0 <= a < b < ps.len() ==> (#[trigger] ps[a]).end_cell < (#[trigger] ps[b]).start_cell,
        0 <= k <= ps.len(),
        0 <= cell < n,
        k > 0 ==> ps[k - 1].end_cell < cell,
        k < ps.len() ==> cell < ps[k].start_cell,
        merged_upto(l0, cur, ps, k, cell),
    ensures
        uncovered(ps, cell),
        cell_is(cur, cell, (l0.cells[cell], l0.cell_to_item[cell], l0.items[cell])),
{
    reveal(merged_upto);
    assert forall|kk: int| 0 <= kk < ps.len() implies !((#[trigger] ps[kk]).start_cell <= cell && cell <= ps[kk].end_cell) by {
        if kk < k {
            if kk < k - 1 {
                assert(ps[kk].end_cell < ps[k - 1].start_cell);
            }
        } else if kk > k {
            assert(ps[k].end_cell < ps[kk].start_cell);
        }
    }
}

/// Unbinding a cell in no group extends the merge by that cell.
proof fn lemma_lone_step(
    l0: LineView,
    cur: LineView,
    after: LineView,
    nl: LineView,
    ps: Seq<ItemPosition>,
    k: int,
    cell: int,
    n: int,
)
    requires
        n == l0.cells.len(),
        line_shape(l0),
        positions_ok(ps, n),
        0 <= k <= ps.len(),
        0 <= cell < n,
        k > 0 ==> ps[k - 1].end_cell < cell,
        uncovered(ps, cell),
        cur.cells.len() == n,
        merged_upto(l0, cur, ps, k, cell),
        cell_is(cur, cell, (l0.cells[cell], l0.cell_to_item[cell], l0.items[cell])),
        items_bounded(cur, n),
        after.cells.len() == n,
        after.items.len() == n,
        after.cell_to_item.len() == n,
        cell_is(after, cell, lone_cell_after(cur, cell)),
        forall|d: int| 0 <= d < n && d != cell ==> #[trigger] cell_is(after, d, (cur.cells[d], cur.cell_to_item[d], cur.items[d])),
        nl.cells == after.cells,
        nl.items == after.items,
        nl.cell_to_item == after.cell_to_item,
        nl.dirty == (cur.dirty || cur.cell_to_item[cell] >= 0),
    ensures
        merged_upto(l0, nl, ps, k, cell + 1),
        items_bounded(nl, n),
{
    reveal(merged_upto);
    let next = cell + 1;
    assert forall|j: int| 0 <= j < n && (#[trigger] nl.items[j]).len() > 0 implies seq_max(nl.items[j]) <= n by {
        if j != cell {
            assert(cell_is(after, j, (cur.cells[j], cur.cell_to_item[j], cur.items[j])));
        }
    }
    assert forall|kk: int, c: int|
        #![trigger group_cell_after(l0, ps[kk], c)]
        0 <= kk < k && ps[kk].start_cell <= c <= ps[kk].end_cell implies cell_is(nl, c, group_cell_after(l0, ps[kk], c)) by {
        assert(c != cell);
        assert(cell_is(after, c, (cur.cells[c], cur.cell_to_item[c], cur.items[c])));
    }
    assert forall|c: int| 0 <= c < next && uncovered(ps, c) implies cell_is(nl, c, #[trigger] lone_cell_after(l0, c)) by {
        if c != cell {
            assert(cell_is(after, c, (cur.cells[c], cur.cell_to_item[c], cur.items[c])));
        }
    }
    assert forall|c: int| next <= c < n implies cell_is(nl, c, (l0.cells[c], l0.cell_to_item[c], #[trigger] l0.items[c])) by {
        assert(cell_is(after, c, (cur.cells[c], cur.cell_to_item[c], cur.items[c])));
    }
    assert((exists|c: int| 0 <= c < next && uncovered(ps, c) && #[trigger] l0.cell_to_item[c] >= 0) == ((exists|c: int|
        0 <= c < cell && uncovered(ps, c) && #[trigger] l0.cell_to_item[c] >= 0) || l0.cell_to_item[cell] >= 0)) by {
        if l0.cell_to_item[cell] >= 0 {
            assert(0 <= cell < next && uncovered(ps, cell) && l0.cell_to_item[cell] >= 0);
        }
    }
}

/// `l` drawn: no cell and not the row waits to be redrawn.
pub open spec fn settled(l: LineView) -> LineView {
    LineView { cells: l.cells.map_values(|c: CellView| CellView { dirty: false, ..c }), dirty: false, ..l }
}

/// Merging a drawn row again with the same groups of runs changes nothing: the cells keep
/// their bindings and items, and nothing is marked for redrawing.
pub proof fn law_merge_again_changes_nothing(old: LineView, once: LineView, again: LineView, ps: Seq<ItemPosition>)
    requires
        line_shape(old),
        old.cells.len() <= i32::MAX,
        positions_ok(ps, old.cells.len() as int),
        merged(old, once, ps),
        merged(settled(once), again, ps),
    ensures
        again == settled(once),
{
    reveal(merged_upto);
    let n = old.cells.len() as int;
    let s = settled(once);
    lemma_positions_sorted(ps, n);
    assert forall|k: int| 0 <= k < ps.len() implies !needs_binding(s, #[trigger] ps[k]) && !group_dirty(s, ps[k]) by {
        let p = ps[k];
        let st = p.start_cell as int;
        let en = p.end_cell as int;
        assert(cell_is(once, st, group_cell_after(old, p, st)));
        assert(cell_is(once, en, group_cell_after(old, p, en)));
        lemma_seq_max_constant(p.count as nat, (p.end_cell - p.start_cell + 1) as usize);
        assert(s.cell_to_item == once.cell_to_item && s.items == once.items);
        if needs_binding(old, p) || group_dirty(old, p) {
            assert(once.items[st] == group_items(p));
            assert(once.cell_to_item[st] == st);
            assert(once.cell_to_item[en] != -1);
            assert(seq_max(s.items[st]) == en - st + 1);
        } else {
            assert(once.cell_to_item[st] == old.cell_to_item[st]);
            assert(once.items[st] == old.items[st]);
            assert(once.cell_to_item[en] == old.cell_to_item[en]);
        }
        if group_dirty(s, p) {
            let c = choose|c: int| p.start_cell <= c <= p.end_cell && #[trigger] s.cells[c].dirty;
            assert(!s.cells[c].dirty);
        }
    }
    assert forall|c: int| 0 <= c < n && uncovered(ps, c) implies #[trigger] s.cell_to_item[c] < 0 by {
        assert(cell_is(once, c, lone_cell_after(old, c)));
    }
    assert(!merge_changes(s, ps, ps.len() as int, n)) by {
        if exists|k: int| 0 <= k < ps.len() && (needs_binding(s, #[trigger] ps[k]) || group_dirty(s, ps[k])) {
            let k = choose|k: int| 0 <= k < ps.len() && (needs_binding(s, #[trigger] ps[k]) || group_dirty(s, ps[k]));
            assert(!needs_binding(s, ps[k]) && !group_dirty(s, ps[k]));
        }
        if exists|c: int| 0 <= c < n && uncovered(ps, c) && #[trigger] s.cell_to_item[c] >= 0 {
            let c = choose|c: int| 0 <= c < n && uncovered(ps, c) && #[trigger] s.cell_to_item[c] >= 0;
            assert(s.cell_to_item[c] < 0);
        }
    }
    assert forall|c: int|
        #![trigger again.cells[c]]
        #![trigger again.items[c]]
        #![trigger again.cell_to_item[c]]
        0 <= c < n implies again.cells[c] == s.cells[c] && again.items[c] == s.items[c] && again.cell_to_item[c]
        == s.cell_to_item[c] by {
        if exists|g: int| 0 <= g < ps.len() && (#[trigger] ps[g]).start_cell <= c <= ps[g].end_cell {
            let g = choose|g: int| 0 <= g < ps.len() && (#[trigger] ps[g]).start_cell <= c <= ps[g].end_cell;
            assert(!needs_binding(s, ps[g]) && !group_dirty(s, ps[g]));
            assert(cell_is(again, c, group_cell_after(s, ps[g], c)));
        } else {
            assert(uncovered(ps, c));
            assert(s.cell_to_item[c] < 0);
            assert(cell_is(again, c, lone_cell_after(s, c)));
        }
    }
    assert(again.cells =~= s.cells);
    assert(again.items =~= s.items);
    assert(again.cell_to_item =~= s.cell_to_item);
}

proof fn lemma_merged_wf(old: LineView, new: LineView, ps: Seq<ItemPosition>, n: int)
    requires
        n == old.cells.len(),
        n <= i32::MAX,
        line_wf(old),
        positions_ok(ps, n),
        forall|a: int, b: int| 0 <= a < b < ps.len() ==> (#[trigger] ps[a]).end_cell < (#[trigger] ps[b]).start_cell,
        merged(old, new, ps),
    ensures
        line_wf(new),
{
    reveal(merged_upto);
    assert forall|i: int| 0 <= i < n implies (#[trigger] new.cell_to_item[i] == -1 || {
        let k = new.cell_to_item[i] as int;
        0 <= k <= i && new.items[k].len() > 0 && seq_max(new.items[k]) > i - k && k + seq_max(new.items[k]) <= n
    }) by {
        if exists|g: int| 0 <= g < ps.len() && (#[trigger] ps[g]).start_cell <= i <= ps[g].end_cell {
            let g = choose|g: int| 0 <= g < ps.len() && (#[trigger] ps[g]).start_cell <= i <= ps[g].end_cell;
            let p = ps[g];
            let st = p.start_cell as int;
            assert(cell_is(new, i, group_cell_after(old, p, i)));
            assert(cell_is(new, st, group_cell_after(old, p, st)));
            lemma_seq_max_constant(p.count as nat, (p.end_cell - p.start_cell + 1) as usize);
            if !needs_binding(old, p) {
                assert(span_bound(old, st));
                assert(old.cell_to_item[i] == st);
            }
        } else {
            assert(uncovered(ps, i));
            assert(cell_is(new, i, lone_cell_after(old, i)));
        }
    }
    assert forall|j: int| 0 <= j < n && (#[trigger] new.items[j]).len() > 0 implies span_bound(new, j) by {
        if exists|g: int| 0 <= g < ps.len() && (#[trigger] ps[g]).start_cell <= j <= ps[g].end_cell {
            let g = choose|g: int| 0 <= g < ps.len() && (#[trigger] ps[g]).start_cell <= j <= ps[g].end_cell;
            let p = ps[g];
            let st = p.start_cell as int;
            assert(cell_is(new, j, group_cell_after(old, p, j)));
            lemma_seq_max_constant(p.count as nat, (p.end_cell - p.start_cell + 1) as usize);
            if needs_binding(old, p) {
                assert(j == st);
                assert forall|c: int| j <= c < j + seq_max(new.items[j]) implies #[trigger] new.cell_to_item[c] == j by {
                    assert(cell_is(new, c, group_cell_after(old, p, c)));
                }
            } else {
                assert(span_bound(old, st));
                if j != st {
                    assert(old.cell_to_item[j] == st);
                    assert(old.items[j].len() > 0 ==> span_bound(old, j));
                }
                assert(j == st);
                assert forall|c: int| j <= c < j + seq_max(new.items[j]) implies #[trigger] new.cell_to_item[c] == j by {
                    assert(cell_is(new, c, group_cell_after(old, p, c)));
                    assert(old.cell_to_item[c] == st);
                }
            }
        } else {
            assert(uncovered(ps, j));
            assert(cell_is(new, j, lone_cell_after(old, j)));
            assert(old.items[j].len() > 0 ==> span_bound(old, j));
        }
    }
}

fn copy_counts(v: &Vec<usize>) -> (r: Vec<usize>)
    ensures
        r@ == v@,
{
    let mut r: Vec<usize> = Vec::new();
    let mut i: usize = 0;
    while i < v.len()
        invariant
            i <= v@.len(),
            r@ == v@.subrange(0, i as int),
        decreases v@.len() - i,
    {
        r.push(v[i]);
        assert(v@.subrange(0, i + 1) == v@.subrange(0, i as int).push(v@[i as int]));
        i = i + 1;
    }
    assert(v@.subrange(0, v@.len() as int) == v@);
    r
}

fn copy_counts_i32(v: &Vec<i32>) -> (r: Vec<i32>)
    ensures
        r@ == v@,
{
    let mut r: Vec<i32> = Vec::new();
    let mut i: usize = 0;
    while i < v.len()
        invariant
            i <= v@.len(),
            r@ == v@.subrange(0, i as int),
        decreases v@.len() - i,
    {
        r.push(v[i]);
        assert(v@.subrange(0, i + 1) == v@.subrange(0, i as int).push(v@[i as int]));
        i = i + 1;
    }
    assert(v@.subrange(0, v@.len() as int) == v@);
    r
}

/// The largest element.
fn max_of(v: &Vec<usize>) -> (r: usize)
    requires
        v@.len() > 0,
    ensures
        r == seq_max(v@),
{
    let mut m = v[0];
    let mut i: usize = 1;
    while i < v.len()
        invariant
            1 <= i <= v@.len(),
            m == seq_max(v@.subrange(0, i as int)),
        decreases v.len() - i,
    {
        assert(v@.subrange(0, i + 1).drop_last() == v@.subrange(0, i as int));
        if v[i] >= m {
            m = v[i];
        }
        i = i + 1;
    }
    assert(v@.subrange(0, v@.len() as int) == v@);
    m
}

} // verus!
