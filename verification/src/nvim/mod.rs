//! The Neovim side: notifications, redraw events and the UI state they drive.

pub mod api_info;
pub mod event;
pub mod ext;
pub mod ext_line_grid;
pub mod redraw_handler;
pub mod client;
pub mod ext_popup_menu;
pub mod ext_tabline;
pub mod gui_event;
pub mod mouse;
pub mod redraw;
pub mod redraw_call;
