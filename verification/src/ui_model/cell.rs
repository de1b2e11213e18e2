//! One cell of the UI model.

use std::rc::Rc;

use vstd::prelude::*;

use super::highlight::{default_highlight, Highlight};

verus! {

/// A cell: its text (empty for a blank), highlight, whether it is the second half of a
/// double-width character, and whether it needs redrawing.
#[derive(Debug)]
pub struct Cell {
    pub ch: String,
    pub hl: Rc<Highlight>,
    pub double_width: bool,
    pub dirty: bool,
}

/// What a cell holds: its text as characters and the highlight it points to.
pub struct CellView {
    pub ch: Seq<char>,
    pub hl: Highlight,
    pub double_width: bool,
    pub dirty: bool,
}

impl View for Cell {
    type V = CellView;

    open spec fn view(&self) -> CellView {
        CellView { ch: self.ch@, hl: *self.hl, double_width: self.double_width, dirty: self.dirty }
    }
}

/// An empty cell with highlight `hl`, waiting to be redrawn.
pub open spec fn blank_cell(hl: Highlight) -> CellView {
    CellView { ch: Seq::empty(), hl, double_width: false, dirty: true }
}

impl Cell {
    pub fn new_empty() -> (r: Self)
        ensures
            r@ == blank_cell(default_highlight()),
    {
        Cell { ch: String::new(), hl: Rc::new(Highlight::new()), double_width: false, dirty: true }
    }

    /// A copy of this cell.
    pub fn copy(&self) -> (r: Self)
        ensures
            r@ == self@,
    {
        Cell {
            ch: self.ch.clone(),
            hl: crate::shared::rc_clone(&self.hl),
            double_width: self.double_width,
            dirty: self.dirty,
        }
    }

    /// Empties the cell and gives it the highlight `hl`.
    pub fn clear(&mut self, hl: Rc<Highlight>)
        ensures
            final(self)@ == blank_cell(*hl),
    {
        self.ch = String::new();
        self.hl = hl;
        self.dirty = true;
        self.double_width = false;
    }
}

} // verus!
