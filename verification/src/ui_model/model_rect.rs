//! Rectangles of cells.

use vstd::prelude::*;

use super::line::{seq_max, LineView};
use super::{model_wf, ModelView, UiModel};

verus! {

/// The cells of rows `[top, bot]` and columns `[left, right]`.
#[derive(Clone, PartialEq, Debug)]
pub struct ModelRect {
    pub top: usize,
    pub bot: usize,
    pub left: usize,
    pub right: usize,
}

/// The smallest rectangle that holds both.
pub open spec fn rect_join(a: ModelRect, b: ModelRect) -> ModelRect {
    ModelRect {
        top: if a.top < b.top { a.top } else { b.top },
        bot: if a.bot > b.bot { a.bot } else { b.bot },
        left: if a.left < b.left { a.left } else { b.left },
        right: if a.right > b.right { a.right } else { b.right },
    }
}

/// `outer` holds every cell of `inner`.
pub open spec fn rect_holds(outer: ModelRect, inner: ModelRect) -> bool {
    outer.top <= inner.top && inner.bot <= outer.bot && outer.left <= inner.left && inner.right <= outer.right
}

/// Joining rectangles gives one that holds both, the same either way round, and held by any
/// rectangle that holds both.
pub proof fn law_join_is_smallest_cover(a: ModelRect, b: ModelRect, c: ModelRect)
    ensures
        rect_holds(rect_join(a, b), a),
        rect_holds(rect_join(a, b), b),
        rect_join(a, b) == rect_join(b, a),
        rect_holds(c, a) && rect_holds(c, b) ==> rect_holds(c, rect_join(a, b)),
{
}

impl ModelRect {
    pub fn new(top: usize, bot: usize, left: usize, right: usize) -> (r: ModelRect)
        requires
            top <= bot,
            left <= right,
        ensures
            r == (ModelRect { top, bot, left, right }),
    {
        ModelRect { top, bot, left, right }
    }

    /// The rectangle of the single cell at column `x`, row `y`.
    pub fn point(x: usize, y: usize) -> (r: ModelRect)
        ensures
            r == (ModelRect { top: y, bot: y, left: x, right: x }),
    {
        ModelRect { top: y, bot: y, left: x, right: x }
    }

    /// Grows this rectangle to the smallest one that holds both.
    pub fn join(&mut self, rect: &ModelRect)
        requires
            (if old(self).top < rect.top { old(self).top } else { rect.top }) <= (if old(self).bot > rect.bot { old(self).bot } else { rect.bot }),
            (if old(self).left < rect.left { old(self).left } else { rect.left }) <= (if old(self).right > rect.right { old(self).right } else { rect.right }),
        ensures
            *final(self) == rect_join(*old(self), *rect),
    {
        self.top = if self.top < rect.top { self.top } else { rect.top };
        self.left = if self.left < rect.left { self.left } else { rect.left };
        self.bot = if self.bot > rect.bot { self.bot } else { rect.bot };
        self.right = if self.right > rect.right { self.right } else { rect.right };
    }
}

/// How far left a change at column `l` of a row must be redrawn: to the start of the item
/// covering it, and to the first half of a double-width character.
pub open spec fn row_left(line: LineView, l: int) -> int {
    let a = if line.cell_to_item[l] >= 0 && (line.cell_to_item[l] as int) < l {
        line.cell_to_item[l] as int
    } else {
        l
    };
    if l > 0 && line.cells[l].double_width && l - 1 < a {
        l - 1
    } else {
        a
    }
}

/// How many cells from `r` on the item at `r` covers.
pub open spec fn item_len_at(line: LineView, r: int) -> int {
    if line.cell_to_item[r] >= 0 {
        seq_max(line.items[line.cell_to_item[r] as int]) - (r - line.cell_to_item[r])
    } else {
        1
    }
}

/// How far right a change at column `r` of a row must be redrawn.
pub open spec fn row_right(line: LineView, r: int) -> int {
    let a = r + item_len_at(line, r) - 1;
    if r + 1 < line.cells.len() && line.cells[r + 1].double_width && a < r + 1 {
        r + 1
    } else {
        a
    }
}

/// The left edge after extending over rows `[top, end)`.
pub open spec fn extended_left(m: ModelView, top: int, end: int, l: int) -> int
    decreases end - top,
{
    if end <= top {
        l
    } else {
        let prev = extended_left(m, top, end - 1, l);
        let c = row_left(m.lines[end - 1], l);
        if c < prev { c } else { prev }
    }
}

pub open spec fn extended_right(m: ModelView, top: int, end: int, r: int) -> int
    decreases end - top,
{
    if end <= top {
        r
    } else {
        let prev = extended_right(m, top, end - 1, r);
        let c = row_right(m.lines[end - 1], r);
        if c > prev { c } else { prev }
    }
}

impl ModelRect {
    /// Extends the rectangle to the left and right so that every item it touches is redrawn.
    pub fn extend_by_items(&mut self, model: Option<&UiModel>)
        requires
            model matches Some(m) ==> m.wf() && old(self).bot < m.view_model().rows && old(self).left
                < m.view_model().columns && old(self).right < m.view_model().columns && old(self).top <= old(self).bot + 1,
        ensures
            final(self).top == old(self).top,
            final(self).bot == old(self).bot,
            model is None ==> *final(self) == *old(self),
            model matches Some(m) ==> final(self).left == extended_left(
                m.view_model(),
                old(self).top as int,
                old(self).bot + 1,
                old(self).left as int,
            ) && final(self).right == extended_right(
                m.view_model(),
                old(self).top as int,
                old(self).bot + 1,
                old(self).right as int,
            ),
    {
        let model = match model {
            Some(m) => m,
            None => {
                return;
            },
        };
        let ghost mv = model.view_model();
        let mut left = self.left;
        let mut right = self.right;
        let mut i = self.top;
        while i < self.bot + 1
            invariant
                self.top <= i <= self.bot + 1,
                self.bot < mv.rows,
                self.left < mv.columns,
                self.right < mv.columns,
                model_wf(mv),
                mv == model.view_model(),
                left == extended_left(mv, self.top as int, i as int, self.left as int),
                right == extended_right(mv, self.top as int, i as int, self.right as int),
                left <= self.left,
                right >= self.right,
                right < mv.columns,
            decreases self.bot + 1 - i,
        {
            let line = &model.model[i];
            assert(line.view_line() == mv.lines[i as int]);
            let ghost lv = mv.lines[i as int];
            let item_idx = line.cell_to_item(self.left);
            if item_idx >= 0 {
                let item_idx = item_idx as usize;
                if item_idx < left {
                    left = item_idx;
                }
            }
            let len_since_right = line.item_len_from_idx(self.right) - 1;
            if right < self.right + len_since_right {
                right = self.right + len_since_right;
            }
            let cell = &line.line[self.left];
            assert(cell@ == lv.cells[self.left as int]);
            if self.left > 0 && cell.double_width {
                let dw_char_idx = self.left - 1;
                if dw_char_idx < left {
                    left = dw_char_idx;
                }
            }
            let dw_char_idx = self.right + 1;
            if dw_char_idx < line.line.len() {
                assert(line.line@[dw_char_idx as int]@ == lv.cells[dw_char_idx as int]);
                if line.line[dw_char_idx].double_width && right < dw_char_idx {
                    right = dw_char_idx;
                }
            }
            i = i + 1;
        }
        self.left = left;
        self.right = right;
    }
}

} // verus!
