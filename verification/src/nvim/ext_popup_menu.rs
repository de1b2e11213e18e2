//! The external popup menu as the redraw events leave it.

use vstd::prelude::*;

use super::event::PopupMenuItem;

verus! {

/// A shown popup menu.
#[derive(Debug)]
pub struct ExtPopupMenuState {
    pub items: Vec<PopupMenuItem>,
    pub selected: Option<usize>,
    pub row: usize,
    pub col: usize,
    pub grid: u64,
}

/// The popup menu: shown with its state, or hidden.
#[derive(Debug)]
pub struct ExtPopupMenu {
    state: Option<ExtPopupMenuState>,
}

impl ExtPopupMenu {
    /// The menu's state, `None` while hidden.
    pub closed spec fn shown(&self) -> Option<ExtPopupMenuState> {
        self.state
    }

    pub fn new() -> (r: Self)
        ensures
            r.shown() is None,
    {
        ExtPopupMenu { state: None }
    }

    pub fn get(&self) -> (r: Option<&ExtPopupMenuState>)
        ensures
            r.is_some() == self.shown().is_some(),
            r matches Some(s) ==> *s == self.shown().unwrap(),
    {
        self.state.as_ref()
    }

    pub fn show(&mut self, items: Vec<PopupMenuItem>, selected: Option<usize>, row: usize, col: usize, grid: u64)
        ensures
            final(self).shown() == Some(ExtPopupMenuState { items, selected, row, col, grid }),
    {
        self.state = Some(ExtPopupMenuState { items, selected, row, col, grid });
    }

    pub fn hide_menu(&mut self)
        ensures
            final(self).shown() is None,
    {
        self.state = None;
    }

    /// Changes the selection of a shown menu; a hidden menu stays hidden.
    pub fn select(&mut self, selected: Option<usize>)
        ensures
            match old(self).shown() {
                Some(s) => final(self).shown() == Some(ExtPopupMenuState { selected, ..s }),
                None => final(self).shown() is None,
            },
    {
        if let Some(state) = &mut self.state {
            state.selected = selected;
        }
    }
}

} // verus!
