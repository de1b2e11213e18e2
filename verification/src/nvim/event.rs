//! Decoding of Neovim notifications and of the events of a `redraw` batch.

use vstd::prelude::*;

use crate::text::str_eq;
use crate::value::{array_of, bool_of, i64_of, str_of, take_front, u64_of, Value};

verus! {

/// A notification from Neovim.
#[derive(Debug)]
pub enum NvimEvent {
    Redraw(Vec<RedrawEvent>),
    Gui(Vec<Value>),
    Subscription(Vec<Value>),
    Resized(Vec<Value>),
}

/// A UI option announced by `option_set`.
#[derive(Debug)]
pub enum GuiOption {
    ArabicShape(bool),
    AmbiWidth(String),
    Emoji(bool),
    GuiFont(String),
    GuiFontSet(String),
    GuiFontWide(String),
    LineSpace(i64),
    Pumblend(u64),
    ShowTabLine(u64),
    TermGuiColors(bool),
    Mousefocus(bool),
    ExtLinegrid(bool),
    ExtMultigrid(bool),
    ExtHlstate(bool),
    ExtTermcolors(bool),
    ExtCmdline(bool),
    ExtPopupmenu(bool),
    ExtTabline(bool),
    ExtWildmenu(bool),
    ExtMessages(bool),
    Unknown(String, Value),
}

/// One cell run of a `grid_line` event.
#[derive(Clone, Debug, PartialEq)]
pub struct GridLineCell {
    pub text: String,
    pub highlight_id: Option<u64>,
    pub repeat: Option<u64>,
}

/// One completion item of `popupmenu_show`.
#[derive(Debug, Clone, PartialEq)]
pub struct PopupMenuItem {
    pub word: String,
    pub kind: String,
    pub menu: String,
    pub info: String,
}

/// One event of a `redraw` batch.
#[derive(Debug)]
pub enum RedrawEvent {
    OptionSet(GuiOption),
    ModeInfoSet,
    HighlightAttributesDefine,
    HighlightGroupSet,
    GridLine { grid: u64, row: u64, column_start: u64, cells: Vec<GridLineCell> },
    GridClear { grid: u64 },
    GridDestroy { grid: u64 },
    GridCursorGoto { grid: u64, row: u64, column: u64 },
    GridScroll {
        grid: u64,
        top: u64,
        bottom: u64,
        left: u64,
        right: u64,
        rows: i64,
        columns: i64,
    },
    GridResize { grid: u64, width: u64, height: u64 },
    WindowViewport,
    ModeChange,
    MouseOn,
    MouseOff,
    Flush,
    PopupmenuShow {
        items: Vec<PopupMenuItem>,
        selected: Option<u64>,
        row: u64,
        col: u64,
        grid: u64,
    },
    PopupmenuSelect { selected: Option<u64> },
    PopupmenuHide,
    Unknown(String, Vec<Value>),
}

/// The vector an array value holds.
pub open spec fn array_vec_of(v: Value) -> Option<Vec<Value>> {
    match v {
        Value::Array(a) => Some(a),
        _ => None,
    }
}

/// The string a string value holds, where it is valid UTF-8.
pub open spec fn string_of(v: Value) -> Option<String> {
    match v {
        Value::String(s) => s,
        _ => None,
    }
}

pub fn into_array(value: Value) -> (r: Option<Vec<Value>>)
    ensures
        r == array_vec_of(value),
{
    match value {
        Value::Array(arr) => Some(arr),
        _ => None,
    }
}

pub fn into_string(value: Value) -> (r: Option<String>)
    ensures
        r == string_of(value),
{
    match value {
        Value::String(s) => s,
        _ => None,
    }
}

/// `Some` of the boolean, wrapped by `f`.
pub open spec fn bool_option(v: Value, f: spec_fn(bool) -> GuiOption) -> Option<GuiOption> {
    match bool_of(v) {
        Some(b) => Some(f(b)),
        None => None,
    }
}

pub open spec fn string_option(v: Value, f: spec_fn(String) -> GuiOption) -> Option<GuiOption> {
    match string_of(v) {
        Some(s) => Some(f(s)),
        None => None,
    }
}

/// The option an `option_set` event `[name, value]` announces.
pub open spec fn gui_option_of(event: Seq<Value>) -> Option<GuiOption> {
    if event.len() < 2 || string_of(event[0]).is_none() {
        None
    } else {
        let name = string_of(event[0]).unwrap();
        let value = event[1];
        let n = name@;
        if n == "arabicshape"@ {
            bool_option(value, |b| GuiOption::ArabicShape(b))
        } else if n == "ambiwidth"@ {
            string_option(value, |s| GuiOption::AmbiWidth(s))
        } else if n == "emoji"@ {
            bool_option(value, |b| GuiOption::Emoji(b))
        } else if n == "guifont"@ {
            string_option(value, |s| GuiOption::GuiFont(s))
        } else if n == "guifontset"@ {
            string_option(value, |s| GuiOption::GuiFontSet(s))
        } else if n == "guifontwide"@ {
            string_option(value, |s| GuiOption::GuiFontWide(s))
        } else if n == "linespace"@ {
            match i64_of(value) {
                Some(x) => Some(GuiOption::LineSpace(x)),
                None => None,
            }
        } else if n == "pumblend"@ {
            match u64_of(value) {
                Some(x) => Some(GuiOption::Pumblend(x)),
                None => None,
            }
        } else if n == "showtabline"@ {
            match u64_of(value) {
                Some(x) => Some(GuiOption::ShowTabLine(x)),
                None => None,
            }
        } else if n == "termguicolors"@ {
            bool_option(value, |b| GuiOption::TermGuiColors(b))
        } else if n == "mousefocus"@ {
            bool_option(value, |b| GuiOption::Mousefocus(b))
        } else if n == "ext_linegrid"@ {
            bool_option(value, |b| GuiOption::ExtLinegrid(b))
        } else if n == "ext_multigrid"@ {
            bool_option(value, |b| GuiOption::ExtMultigrid(b))
        } else if n == "ext_hlstate"@ {
            bool_option(value, |b| GuiOption::ExtHlstate(b))
        } else if n == "ext_termcolors"@ {
            bool_option(value, |b| GuiOption::ExtTermcolors(b))
        } else if n == "ext_cmdline"@ {
            bool_option(value, |b| GuiOption::ExtCmdline(b))
        } else if n == "ext_popupmenu"@ {
            bool_option(value, |b| GuiOption::ExtPopupmenu(b))
        } else if n == "ext_tabline"@ {
            bool_option(value, |b| GuiOption::ExtTabline(b))
        } else if n == "ext_wildmenu"@ {
            bool_option(value, |b| GuiOption::ExtWildmenu(b))
        } else if n == "ext_messages"@ {
            bool_option(value, |b| GuiOption::ExtMessages(b))
        } else {
            Some(GuiOption::Unknown(name, value))
        }
    }
}

impl GuiOption {
    pub fn parse(event: Vec<Value>) -> (r: Option<Self>)
        ensures
            r == gui_option_of(event@),
    {
        let ghost orig = event@;
        let mut event = event;
        let first = take_front(&mut event)?;
        let name = into_string(first)?;
        let value = take_front(&mut event)?;
        assert(value == orig[1]);
        let n = name.as_str();
        if str_eq(n, "arabicshape") {
            Some(GuiOption::ArabicShape(value.as_bool()?))
        } else if str_eq(n, "ambiwidth") {
            Some(GuiOption::AmbiWidth(into_string(value)?))
        } else if str_eq(n, "emoji") {
            Some(GuiOption::Emoji(value.as_bool()?))
        } else if str_eq(n, "guifont") {
            Some(GuiOption::GuiFont(into_string(value)?))
        } else if str_eq(n, "guifontset") {
            Some(GuiOption::GuiFontSet(into_string(value)?))
        } else if str_eq(n, "guifontwide") {
            Some(GuiOption::GuiFontWide(into_string(value)?))
        } else if str_eq(n, "linespace") {
            Some(GuiOption::LineSpace(value.as_i64()?))
        } else if str_eq(n, "pumblend") {
            Some(GuiOption::Pumblend(value.as_u64()?))
        } else if str_eq(n, "showtabline") {
            Some(GuiOption::ShowTabLine(value.as_u64()?))
        } else if str_eq(n, "termguicolors") {
            Some(GuiOption::TermGuiColors(value.as_bool()?))
        } else if str_eq(n, "mousefocus") {
            Some(GuiOption::Mousefocus(value.as_bool()?))
        } else if str_eq(n, "ext_linegrid") {
            Some(GuiOption::ExtLinegrid(value.as_bool()?))
        } else if str_eq(n, "ext_multigrid") {
            Some(GuiOption::ExtMultigrid(value.as_bool()?))
        } else if str_eq(n, "ext_hlstate") {
            Some(GuiOption::ExtHlstate(value.as_bool()?))
        } else if str_eq(n, "ext_termcolors") {
            Some(GuiOption::ExtTermcolors(value.as_bool()?))
        } else if str_eq(n, "ext_cmdline") {
            Some(GuiOption::ExtCmdline(value.as_bool()?))
        } else if str_eq(n, "ext_popupmenu") {
            Some(GuiOption::ExtPopupmenu(value.as_bool()?))
        } else if str_eq(n, "ext_tabline") {
            Some(GuiOption::ExtTabline(value.as_bool()?))
        } else if str_eq(n, "ext_wildmenu") {
            Some(GuiOption::ExtWildmenu(value.as_bool()?))
        } else if str_eq(n, "ext_messages") {
            Some(GuiOption::ExtMessages(value.as_bool()?))
        } else {
            Some(GuiOption::Unknown(name, value))
        }
    }
}

} // verus!

verus! {

/// The cell a `grid_line` cell array `[text, hl_id?, repeat?]` describes.
pub open spec fn grid_cell_of(fields: Seq<Value>) -> Option<GridLineCell> {
    if fields.len() == 0 || string_of(fields[0]).is_none() {
        None
    } else {
        Some(
            GridLineCell {
                text: string_of(fields[0]).unwrap(),
                highlight_id: if fields.len() > 1 {
                    u64_of(fields[1])
                } else {
                    None
                },
                repeat: if fields.len() > 2 {
                    u64_of(fields[2])
                } else {
                    None
                },
            },
        )
    }
}

/// The cells of a `grid_line` event: every element that is an array describing a cell, in
/// order; the others are skipped.
pub open spec fn grid_cells_of(cells: Seq<Value>) -> Seq<GridLineCell>
    decreases cells.len(),
{
    if cells.len() == 0 {
        Seq::empty()
    } else {
        let rest = grid_cells_of(cells.drop_last());
        match cells.last() {
            Value::Array(a) => match grid_cell_of(a@) {
                Some(c) => rest.push(c),
                None => rest,
            },
            _ => rest,
        }
    }
}

/// The strings among `vals`, in order.
pub open spec fn strings_of(vals: Seq<Value>) -> Seq<String>
    decreases vals.len(),
{
    if vals.len() == 0 {
        Seq::empty()
    } else {
        let rest = strings_of(vals.drop_last());
        match string_of(vals.last()) {
            Some(s) => rest.push(s),
            None => rest,
        }
    }
}

/// The completion item made of the first four strings: word, kind, menu and info.
pub open spec fn popup_item_of(menu: Seq<String>) -> Option<PopupMenuItem> {
    if menu.len() < 4 {
        None
    } else {
        Some(PopupMenuItem { word: menu[0], kind: menu[1], menu: menu[2], info: menu[3] })
    }
}

/// The items of a `popupmenu_show` event: every array element whose strings make an item.
pub open spec fn popup_items_of(vals: Seq<Value>) -> Seq<PopupMenuItem>
    decreases vals.len(),
{
    if vals.len() == 0 {
        Seq::empty()
    } else {
        let rest = popup_items_of(vals.drop_last());
        match vals.last() {
            Value::Array(a) => match popup_item_of(strings_of(a@)) {
                Some(it) => rest.push(it),
                None => rest,
            },
            _ => rest,
        }
    }
}

/// Neovim's optional index: a non-negative integer, or a negative one for none.
pub open spec fn optional_index(i: i64) -> Option<u64> {
    if i >= 0 {
        Some(i as u64)
    } else {
        None
    }
}

/// Whether the first `n` arguments are all `u64`s.
pub open spec fn u64_args(a: Seq<Value>, n: int) -> bool {
    a.len() >= n && forall|k: int| 0 <= k < n ==> #[trigger] u64_of(a[k]).is_some()
}

/// The `k`-th argument as a `u64`.
pub open spec fn u64_arg(a: Seq<Value>, k: int) -> u64 {
    u64_of(a[k]).unwrap()
}

/// `r` is what decoding the arguments `ev` of one event named `name` gives.
pub open spec fn redraw_event_is(name: Seq<char>, ev: Vec<Value>, r: Option<RedrawEvent>) -> bool {
    let a = ev@;
    if name == "option_set"@ {
        r == match gui_option_of(a) {
            Some(o) => Some(RedrawEvent::OptionSet(o)),
            None => None,
        }
    } else if name == "mode_info_set"@ {
        r == Some(RedrawEvent::ModeInfoSet)
    } else if name == "hl_attr_define"@ {
        r == Some(RedrawEvent::HighlightAttributesDefine)
    } else if name == "hl_group_set"@ {
        r == Some(RedrawEvent::HighlightGroupSet)
    } else if name == "grid_line"@ {
        if u64_args(a, 3) && a.len() >= 4 && array_of(a[3]).is_some() {
            r matches Some(RedrawEvent::GridLine { grid, row, column_start, cells }) && grid
                == u64_arg(a, 0) && row == u64_arg(a, 1) && column_start == u64_arg(a, 2) && cells@
                == grid_cells_of(array_of(a[3]).unwrap())
        } else {
            r is None
        }
    } else if name == "grid_clear"@ {
        r == if u64_args(a, 1) {
            Some(RedrawEvent::GridClear { grid: u64_arg(a, 0) })
        } else {
            None
        }
    } else if name == "grid_destroy"@ {
        r == if u64_args(a, 1) {
            Some(RedrawEvent::GridDestroy { grid: u64_arg(a, 0) })
        } else {
            None
        }
    } else if name == "grid_cursor_goto"@ {
        r == if u64_args(a, 3) {
            Some(
                RedrawEvent::GridCursorGoto {
                    grid: u64_arg(a, 0),
                    row: u64_arg(a, 1),
                    column: u64_arg(a, 2),
                },
            )
        } else {
            None
        }
    } else if name == "grid_scroll"@ {
        r == if u64_args(a, 5) && a.len() >= 7 && i64_of(a[5]).is_some() && i64_of(a[6]).is_some() {
            Some(
                RedrawEvent::GridScroll {
                    grid: u64_arg(a, 0),
                    top: u64_arg(a, 1),
                    bottom: u64_arg(a, 2),
                    left: u64_arg(a, 3),
                    right: u64_arg(a, 4),
                    rows: i64_of(a[5]).unwrap(),
                    columns: i64_of(a[6]).unwrap(),
                },
            )
        } else {
            None
        }
    } else if name == "grid_resize"@ {
        r == if u64_args(a, 3) {
            Some(
                RedrawEvent::GridResize {
                    grid: u64_arg(a, 0),
                    width: u64_arg(a, 1),
                    height: u64_arg(a, 2),
                },
            )
        } else {
            None
        }
    } else if name == "win_viewport"@ {
        r == Some(RedrawEvent::WindowViewport)
    } else if name == "mode_change"@ {
        r == Some(RedrawEvent::ModeChange)
    } else if name == "mouse_on"@ {
        r == Some(RedrawEvent::MouseOn)
    } else if name == "mouse_off"@ {
        r == Some(RedrawEvent::MouseOff)
    } else if name == "flush"@ {
        r == Some(RedrawEvent::Flush)
    } else if name == "popupmenu_show"@ {
        if a.len() >= 5 && array_of(a[0]).is_some() && i64_of(a[1]).is_some() && u64_of(
            a[2],
        ).is_some() && u64_of(a[3]).is_some() && u64_of(a[4]).is_some() {
            r matches Some(RedrawEvent::PopupmenuShow { items, selected, row, col, grid }) && items@
                == popup_items_of(array_of(a[0]).unwrap()) && selected == optional_index(
                i64_of(a[1]).unwrap(),
            ) && row == u64_arg(a, 2) && col == u64_arg(a, 3) && grid == u64_arg(a, 4)
        } else {
            r is None
        }
    } else if name == "popupmenu_select"@ {
        r == if a.len() >= 1 && i64_of(a[0]).is_some() {
            Some(RedrawEvent::PopupmenuSelect { selected: optional_index(i64_of(a[0]).unwrap()) })
        } else {
            None
        }
    } else if name == "popupmenu_hide"@ {
        r == Some(RedrawEvent::PopupmenuHide)
    } else {
        r matches Some(RedrawEvent::Unknown(n, v)) && n@ == name && v == ev
    }
}

impl GridLineCell {
    fn parse(fields: &Vec<Value>) -> (r: Option<Self>)
        ensures
            r == grid_cell_of(fields@),
    {
        if fields.len() == 0 {
            return None;
        }
        let text = match &fields[0] {
            Value::String(Some(s)) => s.clone(),
            _ => {
                return None;
            },
        };
        let highlight_id = if fields.len() > 1 {
            fields[1].as_u64()
        } else {
            None
        };
        let repeat = if fields.len() > 2 {
            fields[2].as_u64()
        } else {
            None
        };
        Some(GridLineCell { text, highlight_id, repeat })
    }

    /// A blank cell: one space, no highlight, no repeat.
    pub fn empty() -> (r: Self)
        ensures
            r.text@ == seq![' '],
            r.highlight_id.is_none(),
            r.repeat.is_none(),
    {
        let mut text = String::new();
        crate::text::string_push(&mut text, ' ');
        GridLineCell { text, highlight_id: None, repeat: None }
    }

    /// A copy of this cell.
    pub fn copy(&self) -> (r: Self)
        ensures
            r == *self,
    {
        GridLineCell { text: self.text.clone(), highlight_id: self.highlight_id, repeat: self.repeat }
    }
}

impl PopupMenuItem {
    /// A copy of this item.
    pub fn copy(&self) -> (r: Self)
        ensures
            r == *self,
    {
        PopupMenuItem { word: self.word.clone(), kind: self.kind.clone(), menu: self.menu.clone(), info: self.info.clone() }
    }

    fn new(menu: Vec<String>) -> (r: Option<Self>)
        ensures
            r == popup_item_of(menu@),
    {
        let ghost orig = menu@;
        let mut menu = menu;
        let word = take_front(&mut menu)?;
        let kind = take_front(&mut menu)?;
        let m = take_front(&mut menu)?;
        let info = take_front(&mut menu)?;
        Some(PopupMenuItem { word, kind, menu: m, info })
    }
}

/// The cells of the cell arrays in `cells`.
fn parse_cells(cells: &Vec<Value>) -> (r: Vec<GridLineCell>)
    ensures
        r@ == grid_cells_of(cells@),
{
    let mut r: Vec<GridLineCell> = Vec::new();
    let mut i: usize = 0;
    while i < cells.len()
        invariant
            i <= cells.len(),
            r@ == grid_cells_of(cells@.subrange(0, i as int)),
        decreases cells.len() - i,
    {
        assert(cells@.subrange(0, i + 1).drop_last() == cells@.subrange(0, i as int));
        if let Value::Array(a) = &cells[i] {
            if let Some(c) = GridLineCell::parse(a) {
                r.push(c);
            }
        }
        i = i + 1;
    }
    assert(cells@.subrange(0, cells.len() as int) == cells@);
    r
}

/// The strings among `vals`.
fn collect_strings(vals: &Vec<Value>) -> (r: Vec<String>)
    ensures
        r@ == strings_of(vals@),
{
    let mut r: Vec<String> = Vec::new();
    let mut i: usize = 0;
    while i < vals.len()
        invariant
            i <= vals.len(),
            r@ == strings_of(vals@.subrange(0, i as int)),
        decreases vals.len() - i,
    {
        assert(vals@.subrange(0, i + 1).drop_last() == vals@.subrange(0, i as int));
        if let Value::String(Some(s)) = &vals[i] {
            r.push(s.clone());
        }
        i = i + 1;
    }
    assert(vals@.subrange(0, vals.len() as int) == vals@);
    r
}

/// The completion items in `vals`.
fn parse_popup_items(vals: &Vec<Value>) -> (r: Vec<PopupMenuItem>)
    ensures
        r@ == popup_items_of(vals@),
{
    let mut r: Vec<PopupMenuItem> = Vec::new();
    let mut i: usize = 0;
    while i < vals.len()
        invariant
            i <= vals.len(),
            r@ == popup_items_of(vals@.subrange(0, i as int)),
        decreases vals.len() - i,
    {
        assert(vals@.subrange(0, i + 1).drop_last() == vals@.subrange(0, i as int));
        if let Value::Array(a) = &vals[i] {
            let strings = collect_strings(a);
            if let Some(it) = PopupMenuItem::new(strings) {
                r.push(it);
            }
        }
        i = i + 1;
    }
    assert(vals@.subrange(0, vals.len() as int) == vals@);
    r
}

} // verus!

verus! {

/// The `k`-th argument as a `u64`, where there is one and it is one.
fn arg_u64(a: &Vec<Value>, k: usize) -> (r: Option<u64>)
    ensures
        r == if k < a@.len() {
            u64_of(a@[k as int])
        } else {
            None
        },
{
    if k < a.len() {
        a[k].as_u64()
    } else {
        None
    }
}

fn arg_i64(a: &Vec<Value>, k: usize) -> (r: Option<i64>)
    ensures
        r == if k < a@.len() {
            i64_of(a@[k as int])
        } else {
            None
        },
{
    if k < a.len() {
        a[k].as_i64()
    } else {
        None
    }
}

/// Decodes the arguments of one event named `name`.
fn parse_event(name: &str, ev: Vec<Value>) -> (r: Option<RedrawEvent>)
    ensures
        redraw_event_is(name@, ev, r),
{
    if str_eq(name, "option_set") {
        Some(RedrawEvent::OptionSet(GuiOption::parse(ev)?))
    } else if str_eq(name, "mode_info_set") {
        Some(RedrawEvent::ModeInfoSet)
    } else if str_eq(name, "hl_attr_define") {
        Some(RedrawEvent::HighlightAttributesDefine)
    } else if str_eq(name, "hl_group_set") {
        Some(RedrawEvent::HighlightGroupSet)
    } else if str_eq(name, "grid_line") {
        let grid = arg_u64(&ev, 0)?;
        let row = arg_u64(&ev, 1)?;
        let column_start = arg_u64(&ev, 2)?;
        if ev.len() < 4 {
            return None;
        }
        let cells = ev[3].as_array()?;
        let cells = parse_cells(cells);
        assert(u64_args(ev@, 3));
        Some(RedrawEvent::GridLine { grid, row, column_start, cells })
    } else if str_eq(name, "grid_clear") {
        let grid = arg_u64(&ev, 0);
        assert(grid.is_some() == u64_args(ev@, 1));
        Some(RedrawEvent::GridClear { grid: grid? })
    } else if str_eq(name, "grid_destroy") {
        let grid = arg_u64(&ev, 0);
        assert(grid.is_some() == u64_args(ev@, 1));
        Some(RedrawEvent::GridDestroy { grid: grid? })
    } else if str_eq(name, "grid_cursor_goto") {
        let grid = arg_u64(&ev, 0)?;
        let row = arg_u64(&ev, 1)?;
        let column = arg_u64(&ev, 2)?;
        assert(u64_args(ev@, 3));
        Some(RedrawEvent::GridCursorGoto { grid, row, column })
    } else if str_eq(name, "grid_scroll") {
        let grid = arg_u64(&ev, 0)?;
        let top = arg_u64(&ev, 1)?;
        let bottom = arg_u64(&ev, 2)?;
        let left = arg_u64(&ev, 3)?;
        let right = arg_u64(&ev, 4)?;
        let rows = arg_i64(&ev, 5)?;
        let columns = arg_i64(&ev, 6)?;
        assert(u64_args(ev@, 5));
        Some(RedrawEvent::GridScroll { grid, top, bottom, left, right, rows, columns })
    } else if str_eq(name, "grid_resize") {
        let grid = arg_u64(&ev, 0)?;
        let width = arg_u64(&ev, 1)?;
        let height = arg_u64(&ev, 2)?;
        assert(u64_args(ev@, 3));
        Some(RedrawEvent::GridResize { grid, width, height })
    } else if str_eq(name, "win_viewport") {
        Some(RedrawEvent::WindowViewport)
    } else if str_eq(name, "mode_change") {
        Some(RedrawEvent::ModeChange)
    } else if str_eq(name, "mouse_on") {
        Some(RedrawEvent::MouseOn)
    } else if str_eq(name, "mouse_off") {
        Some(RedrawEvent::MouseOff)
    } else if str_eq(name, "flush") {
        Some(RedrawEvent::Flush)
    } else if str_eq(name, "popupmenu_show") {
        if ev.len() < 1 {
            return None;
        }
        let arr = ev[0].as_array()?;
        let items = parse_popup_items(arr);
        let sel = arg_i64(&ev, 1)?;
        let selected = if sel >= 0 {
            Some(sel as u64)
        } else {
            None
        };
        let row = arg_u64(&ev, 2)?;
        let col = arg_u64(&ev, 3)?;
        let grid = arg_u64(&ev, 4)?;
        Some(RedrawEvent::PopupmenuShow { items, selected, row, col, grid })
    } else if str_eq(name, "popupmenu_select") {
        let sel = arg_i64(&ev, 0)?;
        let selected = if sel >= 0 {
            Some(sel as u64)
        } else {
            None
        };
        Some(RedrawEvent::PopupmenuSelect { selected })
    } else if str_eq(name, "popupmenu_hide") {
        Some(RedrawEvent::PopupmenuHide)
    } else {
        Some(RedrawEvent::Unknown(name.to_owned(), ev))
    }
}

/// `out` is what decoding the event argument lists `items` of a batch named `name` gives:
/// each array element in order, those that do not decode left out.
pub open spec fn redraw_events_are(name: Seq<char>, items: Seq<Value>, out: Seq<RedrawEvent>) -> bool
    decreases items.len(),
{
    if items.len() == 0 {
        out.len() == 0
    } else {
        match items.last() {
            Value::Array(ev) => if redraw_event_is(name, ev, None) {
                redraw_events_are(name, items.drop_last(), out)
            } else {
                out.len() > 0 && redraw_event_is(name, ev, Some(out.last()))
                    && redraw_events_are(name, items.drop_last(), out.drop_last())
            },
            _ => redraw_events_are(name, items.drop_last(), out),
        }
    }
}

/// A `redraw` call `[name, args...]` decodes to `evs`.
pub open spec fn redraw_call_events(call: Seq<Value>, evs: Seq<RedrawEvent>) -> bool {
    call.len() > 0 && str_of(call[0]).is_some() && redraw_events_are(
        str_of(call[0]).unwrap(),
        call.drop_first(),
        evs,
    )
}

/// `r` is what decoding the `redraw` call `call` gives: `None` exactly when the call has no
/// name or the name is not a string.
pub open spec fn redraw_call_is(call: Seq<Value>, r: Option<Vec<RedrawEvent>>) -> bool {
    match r {
        None => !(call.len() > 0 && str_of(call[0]).is_some()),
        Some(v) => redraw_call_events(call, v@),
    }
}

impl RedrawEvent {
    pub fn parse(args: Vec<Value>) -> (r: Option<Vec<Self>>)
        ensures
            redraw_call_is(args@, r),
    {
        let ghost orig = args@;
        let mut args = args;
        let first = take_front(&mut args)?;
        let name = first.as_str()?;
        let mut events: Vec<RedrawEvent> = Vec::new();
        let ghost rest = args@;
        assert(rest == orig.drop_first());
        let ghost mut i: int = 0;
        while args.len() > 0
            invariant
                0 <= i <= rest.len(),
                args@ == rest.subrange(i, rest.len() as int),
                redraw_events_are(name@, rest.subrange(0, i), events@),
            decreases args.len(),
        {
            let item = take_front(&mut args);
            let item = item.unwrap();
            assert(item == rest[i]);
            assert(rest.subrange(0, i + 1).drop_last() == rest.subrange(0, i));
            let ghost before = events@;
            if let Value::Array(ev) = item {
                let e = parse_event(name, ev);
                if let Some(e) = e {
                    events.push(e);
                    assert(events@.drop_last() == before);
                }
            }
            proof {
                i = i + 1;
            }
            assert(args@ == rest.subrange(i, rest.len() as int));
        }
        assert(rest.subrange(0, rest.len() as int) == rest);
        Some(events)
    }
}

/// The event names have these lengths, and those of one length differ.
proof fn lemma_event_names_differ()
    ensures
        "option_set"@.len() == 10,
        "mode_info_set"@.len() == 13,
        "hl_attr_define"@.len() == 14,
        "hl_group_set"@.len() == 12,
        "grid_line"@.len() == 9,
        "grid_clear"@.len() == 10,
        "grid_destroy"@.len() == 12,
        "grid_cursor_goto"@.len() == 16,
        "grid_scroll"@.len() == 11,
        "grid_resize"@.len() == 11,
        "win_viewport"@.len() == 12,
        "mode_change"@.len() == 11,
        "mouse_on"@.len() == 8,
        "mouse_off"@.len() == 9,
        "flush"@.len() == 5,
        "popupmenu_show"@.len() == 14,
        "popupmenu_select"@.len() == 16,
        "popupmenu_hide"@.len() == 14,
        "option_set"@ != "grid_clear"@,
        "hl_attr_define"@ != "popupmenu_show"@,
        "hl_attr_define"@ != "popupmenu_hide"@,
        "hl_group_set"@ != "grid_destroy"@,
        "hl_group_set"@ != "win_viewport"@,
        "grid_line"@ != "mouse_off"@,
        "grid_destroy"@ != "win_viewport"@,
        "grid_cursor_goto"@ != "popupmenu_select"@,
        "grid_scroll"@ != "grid_resize"@,
        "grid_scroll"@ != "mode_change"@,
        "grid_resize"@ != "mode_change"@,
        "popupmenu_show"@ != "popupmenu_hide"@,
{
    reveal_strlit("option_set");
    reveal_strlit("mode_info_set");
    reveal_strlit("hl_attr_define");
    reveal_strlit("hl_group_set");
    reveal_strlit("grid_line");
    reveal_strlit("grid_clear");
    reveal_strlit("grid_destroy");
    reveal_strlit("grid_cursor_goto");
    reveal_strlit("grid_scroll");
    reveal_strlit("grid_resize");
    reveal_strlit("win_viewport");
    reveal_strlit("mode_change");
    reveal_strlit("mouse_on");
    reveal_strlit("mouse_off");
    reveal_strlit("flush");
    reveal_strlit("popupmenu_show");
    reveal_strlit("popupmenu_select");
    reveal_strlit("popupmenu_hide");
    assert("option_set"@[0] != "grid_clear"@[0]);
    assert("hl_attr_define"@[0] != "popupmenu_show"@[0]);
    assert("hl_attr_define"@[0] != "popupmenu_hide"@[0]);
    assert("hl_group_set"@[0] != "grid_destroy"@[0]);
    assert("hl_group_set"@[0] != "win_viewport"@[0]);
    assert("grid_line"@[0] != "mouse_off"@[0]);
    assert("grid_destroy"@[0] != "win_viewport"@[0]);
    assert("grid_cursor_goto"@[0] != "popupmenu_select"@[0]);
    assert("grid_scroll"@[5] != "grid_resize"@[5]);
    assert("grid_scroll"@[0] != "mode_change"@[0]);
    assert("grid_resize"@[0] != "mode_change"@[0]);
    assert("popupmenu_show"@[10] != "popupmenu_hide"@[10]);
}

/// A `redraw` call of one argument list that decodes gives exactly that one event.
proof fn lemma_single_event_call(call: Seq<Value>, evs: Seq<RedrawEvent>, a: Vec<Value>)
    requires
        call.len() == 2,
        str_of(call[0]) is Some,
        call[1] == Value::Array(a),
        !redraw_event_is(str_of(call[0]).unwrap(), a, None),
        redraw_call_events(call, evs),
    ensures
        evs.len() == 1,
        redraw_event_is(str_of(call[0]).unwrap(), a, Some(evs[0])),
{
    let name = str_of(call[0]).unwrap();
    let items = call.drop_first();
    assert(items.len() == 1);
    assert(items.last() == call[1]);
    assert(items.drop_last() =~= Seq::<Value>::empty());
    assert(redraw_events_are(name, items, evs));
    assert(redraw_events_are(name, items.drop_last(), evs.drop_last()));
    assert(evs.drop_last().len() == 0);
    assert(evs.last() == evs[0]);
}

/// A `redraw` call `["grid_cursor_goto", [grid, row, col]]` moves the cursor of `grid` to row
/// `row` and column `col`: the arguments come in the order of Neovim's UI protocol, and the
/// call decodes to that one event.
pub proof fn law_cursor_goto_takes_grid_row_column(call: Seq<Value>, evs: Seq<RedrawEvent>, grid: u64, row: u64, column: u64)
    requires
        call.len() == 2,
        str_of(call[0]) == Some("grid_cursor_goto"@),
        call[1] matches Value::Array(a) && a@.len() == 3 && u64_of(a@[0]) == Some(grid) && u64_of(a@[1])
            == Some(row) && u64_of(a@[2]) == Some(column),
        redraw_call_events(call, evs),
    ensures
        evs == seq![RedrawEvent::GridCursorGoto { grid, row, column }],
{
    lemma_event_names_differ();
    let a = call[1]->Array_0;
    assert(u64_args(a@, 3)) by {
        assert(u64_of(a@[0]).is_some() && u64_of(a@[1]).is_some() && u64_of(a@[2]).is_some());
    }
    lemma_single_event_call(call, evs, a);
    assert(evs =~= seq![evs[0]]);
}

/// A `redraw` call `["grid_resize", [grid, width, height]]` makes `grid` `width` columns wide
/// and `height` rows high, in the order of Neovim's UI protocol.
pub proof fn law_grid_resize_takes_grid_width_height(call: Seq<Value>, evs: Seq<RedrawEvent>, grid: u64, width: u64, height: u64)
    requires
        call.len() == 2,
        str_of(call[0]) == Some("grid_resize"@),
        call[1] matches Value::Array(a) && a@.len() == 3 && u64_of(a@[0]) == Some(grid) && u64_of(a@[1])
            == Some(width) && u64_of(a@[2]) == Some(height),
        redraw_call_events(call, evs),
    ensures
        evs == seq![RedrawEvent::GridResize { grid, width, height }],
{
    lemma_event_names_differ();
    let a = call[1]->Array_0;
    assert(u64_args(a@, 3)) by {
        assert(u64_of(a@[0]).is_some() && u64_of(a@[1]).is_some() && u64_of(a@[2]).is_some());
    }
    lemma_single_event_call(call, evs, a);
    assert(evs =~= seq![evs[0]]);
}

/// A `redraw` call `["grid_scroll", [grid, top, bot, left, right, rows, cols]]` scrolls the
/// region of `grid` from row `top` up to `bot` and column `left` up to `right` by `rows`, in
/// the order of Neovim's UI protocol.
pub proof fn law_grid_scroll_takes_its_region_in_order(
    call: Seq<Value>,
    evs: Seq<RedrawEvent>,
    grid: u64,
    top: u64,
    bottom: u64,
    left: u64,
    right: u64,
    rows: i64,
    columns: i64,
)
    requires
        call.len() == 2,
        str_of(call[0]) == Some("grid_scroll"@),
        call[1] matches Value::Array(a) && a@.len() == 7 && u64_of(a@[0]) == Some(grid) && u64_of(a@[1])
            == Some(top) && u64_of(a@[2]) == Some(bottom) && u64_of(a@[3]) == Some(left) && u64_of(a@[4])
            == Some(right) && i64_of(a@[5]) == Some(rows) && i64_of(a@[6]) == Some(columns),
        redraw_call_events(call, evs),
    ensures
        evs == seq![RedrawEvent::GridScroll { grid, top, bottom, left, right, rows, columns }],
{
    lemma_event_names_differ();
    let a = call[1]->Array_0;
    assert(u64_args(a@, 5)) by {
        assert(u64_of(a@[0]).is_some() && u64_of(a@[1]).is_some() && u64_of(a@[2]).is_some());
        assert(u64_of(a@[3]).is_some() && u64_of(a@[4]).is_some());
    }
    lemma_single_event_call(call, evs, a);
    assert(evs =~= seq![evs[0]]);
}

/// A `redraw` call `["grid_line", [grid, row, col_start, cells]]` writes `cells` into row `row`
/// of `grid` from column `col_start` on, in the order of Neovim's UI protocol.
pub proof fn law_grid_line_takes_grid_row_column(call: Seq<Value>, evs: Seq<RedrawEvent>, grid: u64, row: u64, column_start: u64)
    requires
        call.len() == 2,
        str_of(call[0]) == Some("grid_line"@),
        call[1] matches Value::Array(a) && a@.len() >= 4 && u64_of(a@[0]) == Some(grid) && u64_of(a@[1])
            == Some(row) && u64_of(a@[2]) == Some(column_start) && a@[3] is Array,
        redraw_call_events(call, evs),
    ensures
        evs.len() == 1,
        evs[0] matches RedrawEvent::GridLine { grid: g, row: r, column_start: c, cells: _ } && g == grid && r == row
            && c == column_start,
{
    lemma_event_names_differ();
    let a = call[1]->Array_0;
    assert(u64_args(a@, 3)) by {
        assert(u64_of(a@[0]).is_some() && u64_of(a@[1]).is_some() && u64_of(a@[2]).is_some());
    }
    lemma_single_event_call(call, evs, a);
}

/// A `redraw` call `["popupmenu_show", [items, selected, row, col, grid]]` shows the items at
/// row `row` and column `col` of `grid` with row `selected` selected (none when negative), in
/// the order of Neovim's UI protocol.
pub proof fn law_popupmenu_show_takes_its_place_in_order(
    call: Seq<Value>,
    evs: Seq<RedrawEvent>,
    selected: i64,
    row: u64,
    col: u64,
    grid: u64,
)
    requires
        call.len() == 2,
        str_of(call[0]) == Some("popupmenu_show"@),
        call[1] matches Value::Array(a) && a@.len() == 5 && a@[0] is Array && i64_of(a@[1]) == Some(selected)
            && u64_of(a@[2]) == Some(row) && u64_of(a@[3]) == Some(col) && u64_of(a@[4]) == Some(grid),
        redraw_call_events(call, evs),
    ensures
        evs.len() == 1,
        evs[0] matches RedrawEvent::PopupmenuShow { items: _, selected: s, row: r, col: c, grid: g } && r == row
            && c == col && g == grid && s == (if selected >= 0 { Some(selected as u64) } else { None }),
{
    lemma_event_names_differ();
    let a = call[1]->Array_0;
    lemma_single_event_call(call, evs, a);
}

/// A `redraw` call `["popupmenu_select", [selected]]` selects row `selected`, or no row when
/// `selected` is negative.
pub proof fn law_popupmenu_select_takes_the_row(call: Seq<Value>, evs: Seq<RedrawEvent>, selected: i64)
    requires
        call.len() == 2,
        str_of(call[0]) == Some("popupmenu_select"@),
        call[1] matches Value::Array(a) && a@.len() == 1 && i64_of(a@[0]) == Some(selected),
        redraw_call_events(call, evs),
    ensures
        selected >= 0 ==> evs == seq![RedrawEvent::PopupmenuSelect { selected: Some(selected as u64) }],
        selected < 0 ==> evs == seq![RedrawEvent::PopupmenuSelect { selected: None }],
{
    lemma_event_names_differ();
    let a = call[1]->Array_0;
    lemma_single_event_call(call, evs, a);
    assert(evs =~= seq![evs[0]]);
}

/// `out` is the concatenation of the events of the `redraw` calls among `args`, in order.
pub open spec fn redraw_batch_is(args: Seq<Value>, out: Seq<RedrawEvent>) -> bool
    decreases args.len(),
{
    if args.len() == 0 {
        out.len() == 0
    } else {
        match args.last() {
            Value::Array(call) => if redraw_call_is(call@, None) {
                redraw_batch_is(args.drop_last(), out)
            } else {
                exists|k: int|
                    0 <= k <= out.len() && redraw_batch_is(args.drop_last(), out.subrange(0, k))
                        && redraw_call_events(call@, out.subrange(k, out.len() as int))
            },
            _ => redraw_batch_is(args.drop_last(), out),
        }
    }
}

/// The notification a method `name` with arguments `args` is, for the names that are not
/// `redraw`.
pub open spec fn plain_notification(name: Seq<char>, args: Vec<Value>) -> Option<NvimEvent> {
    if name == "Gui"@ {
        Some(NvimEvent::Gui(args))
    } else if name == "subscription"@ {
        Some(NvimEvent::Subscription(args))
    } else if name == "resized"@ {
        Some(NvimEvent::Resized(args))
    } else {
        None
    }
}

impl NvimEvent {
    pub fn parse(name: String, args: Vec<Value>) -> (r: Option<Self>)
        ensures
            name@ == "redraw"@ ==> (r matches Some(NvimEvent::Redraw(evs)) && redraw_batch_is(
                args@,
                evs@,
            )),
            name@ != "redraw"@ ==> r == plain_notification(name@, args),
    {
        if str_eq(name.as_str(), "redraw") {
            let ghost orig = args@;
            let mut args = args;
            let mut out: Vec<RedrawEvent> = Vec::new();
            let ghost mut i: int = 0;
            while args.len() > 0
                invariant
                    0 <= i <= orig.len(),
                    args@ == orig.subrange(i, orig.len() as int),
                    redraw_batch_is(orig.subrange(0, i), out@),
                decreases args.len(),
            {
                let item = take_front(&mut args).unwrap();
                assert(item == orig[i]);
                assert(orig.subrange(0, i + 1).drop_last() == orig.subrange(0, i));
                let ghost before = out@;
                if let Value::Array(call) = item {
                    let ghost call_seq = call@;
                    if let Some(evs) = RedrawEvent::parse(call) {
                        let mut evs = evs;
                        let ghost added = evs@;
                        out.append(&mut evs);
                        assert(out@.subrange(0, before.len() as int) == before);
                        assert(out@.subrange(before.len() as int, out@.len() as int) == added);
                        assert(redraw_call_events(call_seq, out@.subrange(before.len() as int, out@.len() as int)));
                    }
                }
                proof {
                    i = i + 1;
                }
            }
            assert(orig.subrange(0, orig.len() as int) == orig);
            Some(NvimEvent::Redraw(out))
        } else if str_eq(name.as_str(), "Gui") {
            Some(NvimEvent::Gui(args))
        } else if str_eq(name.as_str(), "subscription") {
            Some(NvimEvent::Subscription(args))
        } else if str_eq(name.as_str(), "resized") {
            Some(NvimEvent::Resized(args))
        } else {
            None
        }
    }
}

} // verus!
