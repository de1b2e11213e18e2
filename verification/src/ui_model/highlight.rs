//! Highlight attributes of a cell.

use vstd::prelude::*;

verus! {

/// How a cell is drawn. Colors are 24-bit RGB values as Neovim sends them.
#[derive(Debug, Clone, Copy, PartialEq, Eq)]
pub struct Highlight {
    pub italic: bool,
    pub bold: bool,
    pub underline: bool,
    pub undercurl: bool,
    pub strikethrough: bool,
    pub reverse: bool,
    pub foreground: Option<u32>,
    pub background: Option<u32>,
    pub special: Option<u32>,
    pub blend: u64,
}

/// The default highlight: no attribute, no color.
pub open spec fn default_highlight() -> Highlight {
    Highlight {
        italic: false,
        bold: false,
        underline: false,
        undercurl: false,
        strikethrough: false,
        reverse: false,
        foreground: None,
        background: None,
        special: None,
        blend: 0,
    }
}

impl Highlight {
    pub fn new() -> (r: Self)
        ensures
            r == default_highlight(),
    {
        Highlight {
            italic: false,
            bold: false,
            underline: false,
            undercurl: false,
            strikethrough: false,
            reverse: false,
            foreground: None,
            background: None,
            special: None,
            blend: 0,
        }
    }
}

} // verus!
