//! Verified core logic of a Neovim GUI client: the msgpack value model, redraw event decoding,
//! the line grids and the UI model, the drawing plan, and the decisions of the command line,
//! the completion menu, the blinking cursor, the tabs, the window title and the project list.

pub mod cmd_line;
pub mod cursor;
pub mod input;
pub mod misc;
pub mod nvim;
pub mod popup_menu;
pub mod project;
pub mod render;
pub mod shared;
pub mod shell;
pub mod shell_dlg;
pub mod tabline;
pub mod ui_model;
pub mod text;
pub mod ui;
pub mod value;

