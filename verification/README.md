# nvim_gtk

The core of a GTK front end for Neovim, written in Verus: everything the GUI decides
without drawing, proved against its contracts.

- `src/nvim/` reads Neovim's msgpack notifications: the `redraw` batch and its events, the
  line grids they write, the popup menu, the tab line, GUI requests from the runtime files,
  the client's connection state and error messages.
- `src/ui_model/` holds what is drawn: cells, rows with the text runs bound to them, the
  wrapped layout of the command line and its damaged rectangles.
- `src/render.rs` plans the background, strikethrough and underline rectangles of a grid.
- `src/cmd_line.rs`, `src/popup_menu.rs`, `src/cursor.rs`, `src/tabline.rs`, `src/ui.rs`,
  `src/project.rs`, `src/shell.rs` and `src/shell_dlg.rs` keep the decisions of the command
  line, the completion menu, the blinking cursor, the tabs, the window title, the project
  list, resizing and focus, and closing the window.
- `src/misc.rs`, `src/input.rs`, `src/text.rs` and `src/value.rs` are the shared helpers:
  escaping, key names, text and the msgpack value model.

Calls into `unicode-width`, `unicode-segmentation`, `percent-encoding`, `htmlescape`, `regex`
and a few std functions go through small trusted wrappers whose contracts say what those
functions return.

`app/` is a small program around the library: it reads msgpack-RPC notifications on
standard input, applies the redraw batches and prints the default grid at every flush.
