//! Events the GUI sends to Neovim, and how a mouse event becomes `nvim_input_mouse` arguments.

use vstd::prelude::*;

verus! {

#[derive(Debug, Clone, Copy, PartialEq, Eq)]
pub enum NvimMouseButton {
    Left,
    Right,
    Wheel,
}

impl NvimMouseButton {
    pub fn as_str(&self) -> (r: &'static str)
        ensures
            r@ == match self {
                NvimMouseButton::Left => "left"@,
                NvimMouseButton::Right => "right"@,
                NvimMouseButton::Wheel => "wheel"@,
            },
    {
        match self {
            NvimMouseButton::Left => "left",
            NvimMouseButton::Right => "right",
            NvimMouseButton::Wheel => "wheel",
        }
    }
}

#[derive(Debug, Clone, Copy, PartialEq, Eq)]
pub enum NvimMouseAction {
    Press,
    Release,
    Up,
    Down,
    Drag,
}

impl NvimMouseAction {
    pub fn as_str(&self) -> (r: &'static str)
        ensures
            r@ == match self {
                NvimMouseAction::Press => "press"@,
                NvimMouseAction::Release => "release"@,
                NvimMouseAction::Up => "up"@,
                NvimMouseAction::Down => "down"@,
                NvimMouseAction::Drag => "drag"@,
            },
    {
        match self {
            NvimMouseAction::Press => "press",
            NvimMouseAction::Release => "release",
            NvimMouseAction::Up => "up",
            NvimMouseAction::Down => "down",
            NvimMouseAction::Drag => "drag",
        }
    }
}

/// What the GUI asks Neovim to do.
pub enum GtkToNvimEvent {
    Input(String),
    InputMouse {
        button: NvimMouseButton,
        action: NvimMouseAction,
        modifier: String,
        grid: Option<u64>,
        /// (col, row)
        pos: Option<(u64, u64)>,
    },
    Resized { width: u64, height: u64 },
    ExecLua(String),
}

/// The grid, row and column arguments of `nvim_input_mouse`: `-1` where the GUI gives none.
pub fn mouse_target(grid: Option<u64>, pos: Option<(u64, u64)>) -> (r: (i64, i64, i64))
    ensures
        r.0 == match grid {
            Some(g) => g as i64,
            None => -1i64,
        },
        (r.1, r.2) == match pos {
            Some((c, row)) => (row as i64, c as i64),
            None => (-1i64, -1i64),
        },
{
    let g = match grid {
        Some(g) => g as i64,
        None => -1,
    };
    let (col, row) = match pos {
        Some((c, r)) => (c as i64, r as i64),
        None => (-1, -1),
    };
    (g, row, col)
}

} // verus!
