//! Decoding of the `Gui` notifications that the GUI's runtime files send.

use vstd::prelude::*;

use super::api_info::NeovimApiInfo;
use super::ext::{parse_u32, parsed_u32};
use crate::text::{str_chars, str_eq};
use crate::value::{i64_of, str_of, Value};

verus! {

/// What reading `s` as an `i32` gives, as `str::parse::<i32>` reads it: an optional sign then
/// one or more decimal digits, whose value must fit.
pub open spec fn parsed_i32(s: Seq<char>) -> Option<i32> {
    if s.len() > 0 && s[0] == '-' {
        let t = s.drop_first();
        if t.len() > 0 && t[0] == '+' {
            None
        } else {
            match parsed_u32(t) {
                Some(v) => if v <= 2147483648 {
                    Some((-(v as int)) as i32)
                } else {
                    None
                },
                None => None,
            }
        }
    } else {
        match parsed_u32(s) {
            Some(v) => if v <= 2147483647 {
                Some(v as i32)
            } else {
                None
            },
            None => None,
        }
    }
}

/// Reads `s` as an `i32` the way `str::parse::<i32>` does.
pub fn parse_i32(s: &str) -> (r: Option<i32>)
    ensures
        r == parsed_i32(s@),
{
    let chars = str_chars(s);
    let n = chars.len();
    assert(chars@.subrange(0, n as int) == chars@);
    if n > 0 && chars[0] == '-' {
        assert(chars@.subrange(1, n as int) == chars@.drop_first());
        if n > 1 && chars[1] == '+' {
            return None;
        }
        match parse_u32(chars.as_slice(), 1, n) {
            Some(v) => if v <= 2147483648 {
                Some((-(v as i64)) as i32)
            } else {
                None
            },
            None => None,
        }
    } else {
        match parse_u32(chars.as_slice(), 0, n) {
            Some(v) => if v <= 2147483647 {
                Some(v as i32)
            } else {
                None
            },
            None => None,
        }
    }
}

/// A command of the `Command` GUI event.
#[derive(Debug, PartialEq)]
pub enum GuiCommand {
    ToggleSidebar,
    ShowProjectView,
    ShowGtkInspector,
    /// The background and foreground opacity, as the texts to read as numbers.
    Transparency(String, String),
    PreferDarkTheme(bool),
    SetCursorBlink(i32),
}

/// What a `Gui` notification asks the UI to do.
#[derive(Debug, PartialEq)]
pub enum GuiEvent {
    Font(String),
    FontFeatures(String),
    Linespace(String),
    /// Put `text` on the primary selection (`*`) or on the clipboard.
    ClipboardSet { primary: bool, text: String },
    /// A clipboard option other than `Set`, to be reported.
    UnknownClipboardOption(String),
    /// Turn the UI extension behind option `name` on or off.
    UiOption { name: String, enable: bool },
    Command(GuiCommand),
    /// A command that is not known, to be reported.
    UnknownCommand,
}

/// Why a `Gui` notification could not be decoded.
#[derive(Debug, PartialEq)]
pub enum GuiEventError {
    Message(String),
    /// An event that is not known, with its arguments.
    Unsupported(String, Vec<Value>),
}

/// What a command holds, its texts as characters.
pub enum GuiCommandView {
    ToggleSidebar,
    ShowProjectView,
    ShowGtkInspector,
    Transparency(Seq<char>, Seq<char>),
    PreferDarkTheme(bool),
    SetCursorBlink(i32),
}

/// What an event holds, its texts as characters.
pub enum GuiEventView {
    Font(Seq<char>),
    FontFeatures(Seq<char>),
    Linespace(Seq<char>),
    ClipboardSet { primary: bool, text: Seq<char> },
    UnknownClipboardOption(Seq<char>),
    UiOption { name: Seq<char>, enable: bool },
    Command(GuiCommandView),
    UnknownCommand,
}

/// What an error holds, its texts as characters.
pub enum GuiEventErrorView {
    Message(Seq<char>),
    Unsupported(Seq<char>, Seq<Value>),
}

impl View for GuiCommand {
    type V = GuiCommandView;

    open spec fn view(&self) -> GuiCommandView {
        match self {
            GuiCommand::ToggleSidebar => GuiCommandView::ToggleSidebar,
            GuiCommand::ShowProjectView => GuiCommandView::ShowProjectView,
            GuiCommand::ShowGtkInspector => GuiCommandView::ShowGtkInspector,
            GuiCommand::Transparency(a, b) => GuiCommandView::Transparency(a@, b@),
            GuiCommand::PreferDarkTheme(b) => GuiCommandView::PreferDarkTheme(*b),
            GuiCommand::SetCursorBlink(n) => GuiCommandView::SetCursorBlink(*n),
        }
    }
}

impl View for GuiEvent {
    type V = GuiEventView;

    open spec fn view(&self) -> GuiEventView {
        match self {
            GuiEvent::Font(s) => GuiEventView::Font(s@),
            GuiEvent::FontFeatures(s) => GuiEventView::FontFeatures(s@),
            GuiEvent::Linespace(s) => GuiEventView::Linespace(s@),
            GuiEvent::ClipboardSet { primary, text } => GuiEventView::ClipboardSet { primary: *primary, text: text@ },
            GuiEvent::UnknownClipboardOption(s) => GuiEventView::UnknownClipboardOption(s@),
            GuiEvent::UiOption { name, enable } => GuiEventView::UiOption { name: name@, enable: *enable },
            GuiEvent::Command(c) => GuiEventView::Command(c@),
            GuiEvent::UnknownCommand => GuiEventView::UnknownCommand,
        }
    }
}

impl View for GuiEventError {
    type V = GuiEventErrorView;

    open spec fn view(&self) -> GuiEventErrorView {
        match self {
            GuiEventError::Message(s) => GuiEventErrorView::Message(s@),
            GuiEventError::Unsupported(m, a) => GuiEventErrorView::Unsupported(m@, a@),
        }
    }
}

/// The error for an argument that must be a string and is not.
pub open spec fn not_a_string() -> GuiEventErrorView {
    GuiEventErrorView::Message("Can't convert argument to string"@)
}

/// A string argument of a setter: the first argument, which must be a valid string.
pub open spec fn setter_arg(args: Seq<Value>, setter: Seq<char>) -> Result<Seq<char>, GuiEventErrorView> {
    if args.len() == 0 {
        Err(GuiEventErrorView::Message("No such argument for "@ + setter))
    } else {
        match args[0] {
            Value::String(Some(s)) => Ok(s@),
            Value::String(None) => Err(GuiEventErrorView::Message("Can't convert to utf8 string"@)),
            _ => Err(GuiEventErrorView::Message("Can't convert to string"@)),
        }
    }
}

/// The argument at `i` as a string, or `default` where there are no more arguments.
pub open spec fn str_arg_or(args: Seq<Value>, i: int, default: Seq<char>) -> Option<Seq<char>> {
    if i < args.len() {
        str_of(args[i])
    } else {
        Some(default)
    }
}

/// What a `Command` event asks.
pub open spec fn command_of(args: Seq<Value>) -> Result<GuiEventView, GuiEventErrorView> {
    match str_of(args[0]) {
        None => Err(not_a_string()),
        Some(c) => if c == "ToggleSidebar"@ {
            Ok(GuiEventView::Command(GuiCommandView::ToggleSidebar))
        } else if c == "ShowProjectView"@ {
            Ok(GuiEventView::Command(GuiCommandView::ShowProjectView))
        } else if c == "ShowGtkInspector"@ {
            Ok(GuiEventView::Command(GuiCommandView::ShowGtkInspector))
        } else if c == "Transparency"@ {
            match (str_arg_or(args, 1, "1.0"@), str_arg_or(args, 2, "1.0"@)) {
                (Some(a), Some(b)) => Ok(GuiEventView::Command(GuiCommandView::Transparency(a, b))),
                _ => Err(not_a_string()),
            }
        } else if c == "PreferDarkTheme"@ {
            match str_arg_or(args, 1, "off"@) {
                Some(v) => Ok(GuiEventView::Command(GuiCommandView::PreferDarkTheme(v == "on"@))),
                None => Err(not_a_string()),
            }
        } else if c == "SetCursorBlink"@ {
            if args.len() > 1 {
                match str_of(args[1]) {
                    Some(v) => Ok(
                        GuiEventView::Command(
                            GuiCommandView::SetCursorBlink(
                                match parsed_i32(v) {
                                    Some(n) => n,
                                    None => -1i32,
                                },
                            ),
                        ),
                    ),
                    None => Err(not_a_string()),
                }
            } else {
                Err(not_a_string())
            }
        } else {
            Ok(GuiEventView::UnknownCommand)
        },
    }
}

/// What a `Clipboard` event asks.
pub open spec fn clipboard_of(args: Seq<Value>) -> Result<GuiEventView, GuiEventErrorView> {
    match str_of(args[0]) {
        None => Err(not_a_string()),
        Some(o) => if o == "Set"@ {
            match str_of(args[1]) {
                None => Err(not_a_string()),
                Some(w) => match str_of(args[2]) {
                    None => Err(not_a_string()),
                    Some(t) => Ok(GuiEventView::ClipboardSet { primary: w == "*"@, text: t }),
                },
            }
        } else {
            Ok(GuiEventView::UnknownClipboardOption(o))
        },
    }
}

/// What an `Option` event asks.
pub open spec fn option_of(args: Seq<Value>) -> Result<GuiEventView, GuiEventErrorView> {
    if args.len() == 0 {
        Err(GuiEventErrorView::Message("UI extension name missing"@))
    } else {
        match args[0] {
            Value::String(Some(name)) => if args.len() < 2 {
                Err(GuiEventErrorView::Message("New value for UI extension is missing"@))
            } else {
                match i64_of(args[1]) {
                    Some(v) => Ok(GuiEventView::UiOption { name: name@, enable: v != 0 }),
                    None => Err(GuiEventErrorView::Message("Can't convert argument to int"@)),
                }
            },
            Value::String(None) => Err(GuiEventErrorView::Message("Can't convert to utf8 string"@)),
            _ => Err(GuiEventErrorView::Message("Can't convert to string"@)),
        }
    }
}

/// What the `Gui` notification `method` with `args` asks.
pub open spec fn gui_event_of(method: Seq<char>, args: Seq<Value>) -> Result<GuiEventView, GuiEventErrorView> {
    if method == "Font"@ {
        match setter_arg(args, "set_font"@) {
            Ok(s) => Ok(GuiEventView::Font(s)),
            Err(e) => Err(e),
        }
    } else if method == "FontFeatures"@ {
        match setter_arg(args, "set_font_features"@) {
            Ok(s) => Ok(GuiEventView::FontFeatures(s)),
            Err(e) => Err(e),
        }
    } else if method == "Linespace"@ {
        match setter_arg(args, "set_line_space"@) {
            Ok(s) => Ok(GuiEventView::Linespace(s)),
            Err(e) => Err(e),
        }
    } else if method == "Clipboard"@ {
        clipboard_of(args)
    } else if method == "Option"@ {
        option_of(args)
    } else if method == "Command"@ {
        command_of(args)
    } else {
        Err(GuiEventErrorView::Unsupported(method, args))
    }
}

/// The arguments the `Gui` notification `method` indexes are there.
pub open spec fn gui_args_present(method: Seq<char>, args: Seq<Value>) -> bool {
    &&& method == "Clipboard"@ ==> args.len() >= 1 && (str_of(args[0]) == Some("Set"@) ==> args.len() >= 2 && (
    str_of(args[1]) is Some ==> args.len() >= 3))
    &&& method == "Command"@ ==> args.len() >= 1
}

/// Whether the arguments that the `Gui` notification `method` indexes are there, so that
/// `parse_gui_event` may be called.
pub fn gui_args_are_present(method: &str, args: &[Value]) -> (r: bool)
    ensures
        r == gui_args_present(method@, args@),
{
    if str_eq(method, "Clipboard") {
        if args.len() < 1 {
            return false;
        }
        match args[0].as_str() {
            Some(o) => {
                if str_eq(o, "Set") {
                    if args.len() < 2 {
                        return false;
                    }
                    match args[1].as_str() {
                        Some(_) => args.len() >= 3,
                        None => true,
                    }
                } else {
                    true
                }
            },
            None => true,
        }
    } else if str_eq(method, "Command") {
        args.len() >= 1
    } else {
        true
    }
}

fn message(text: &str) -> (r: GuiEventError)
    ensures
        r@ == GuiEventErrorView::Message(text@),
{
    GuiEventError::Message(text.to_owned())
}

/// The first argument of a setter, as a string.
fn setter_string(args: Vec<Value>, setter: &str) -> (r: Result<String, GuiEventError>)
    ensures
        match r {
            Ok(s) => setter_arg(args@, setter@) == Ok::<Seq<char>, GuiEventErrorView>(s@),
            Err(e) => setter_arg(args@, setter@) == Err::<Seq<char>, GuiEventErrorView>(e@),
        },
{
    let mut args = args;
    let ghost a = args@;
    match crate::value::take_front(&mut args) {
        None => Err(GuiEventError::Message("No such argument for ".to_owned().concat(setter))),
        Some(Value::String(Some(s))) => Ok(s),
        Some(Value::String(None)) => Err(message("Can't convert to utf8 string")),
        Some(_) => Err(message("Can't convert to string")),
    }
}

/// The argument at `i` as a string, or `default` where there are no more arguments.
fn str_arg_or_default(args: &Vec<Value>, i: usize, default: &str) -> (r: Option<String>)
    ensures
        r.is_some() == str_arg_or(args@, i as int, default@).is_some(),
        r matches Some(s) ==> s@ == str_arg_or(args@, i as int, default@).unwrap(),
{
    if i < args.len() {
        match args[i].as_str() {
            Some(s) => Some(s.to_owned()),
            None => None,
        }
    } else {
        Some(default.to_owned())
    }
}

fn parse_command(args: &Vec<Value>) -> (r: Result<GuiEvent, GuiEventError>)
    requires
        args@.len() >= 1,
    ensures
        match r {
            Ok(e) => command_of(args@) == Ok::<GuiEventView, GuiEventErrorView>(e@),
            Err(e) => command_of(args@) == Err::<GuiEventView, GuiEventErrorView>(e@),
        },
{
    let c = match args[0].as_str() {
        Some(c) => c,
        None => {
            return Err(message("Can't convert argument to string"));
        },
    };
    if str_eq(c, "ToggleSidebar") {
        Ok(GuiEvent::Command(GuiCommand::ToggleSidebar))
    } else if str_eq(c, "ShowProjectView") {
        Ok(GuiEvent::Command(GuiCommand::ShowProjectView))
    } else if str_eq(c, "ShowGtkInspector") {
        Ok(GuiEvent::Command(GuiCommand::ShowGtkInspector))
    } else if str_eq(c, "Transparency") {
        let a = match str_arg_or_default(args, 1, "1.0") {
            Some(a) => a,
            None => {
                return Err(message("Can't convert argument to string"));
            },
        };
        let b = match str_arg_or_default(args, 2, "1.0") {
            Some(b) => b,
            None => {
                return Err(message("Can't convert argument to string"));
            },
        };
        Ok(GuiEvent::Command(GuiCommand::Transparency(a, b)))
    } else if str_eq(c, "PreferDarkTheme") {
        match str_arg_or_default(args, 1, "off") {
            Some(v) => Ok(GuiEvent::Command(GuiCommand::PreferDarkTheme(str_eq(v.as_str(), "on")))),
            None => Err(message("Can't convert argument to string")),
        }
    } else if str_eq(c, "SetCursorBlink") {
        if args.len() > 1 {
            match args[1].as_str() {
                Some(v) => {
                    let n = match parse_i32(v) {
                        Some(n) => n,
                        None => -1,
                    };
                    Ok(GuiEvent::Command(GuiCommand::SetCursorBlink(n)))
                },
                None => Err(message("Can't convert argument to string")),
            }
        } else {
            Err(message("Can't convert argument to string"))
        }
    } else {
        Ok(GuiEvent::UnknownCommand)
    }
}

fn parse_clipboard(args: &Vec<Value>) -> (r: Result<GuiEvent, GuiEventError>)
    requires
        args@.len() >= 1,
        str_of(args@[0]) == Some("Set"@) ==> args@.len() >= 2 && (str_of(args@[1]) is Some ==> args@.len() >= 3),
    ensures
        match r {
            Ok(e) => clipboard_of(args@) == Ok::<GuiEventView, GuiEventErrorView>(e@),
            Err(e) => clipboard_of(args@) == Err::<GuiEventView, GuiEventErrorView>(e@),
        },
{
    let o = match args[0].as_str() {
        Some(o) => o,
        None => {
            return Err(message("Can't convert argument to string"));
        },
    };
    if str_eq(o, "Set") {
        let w = match args[1].as_str() {
            Some(w) => w,
            None => {
                return Err(message("Can't convert argument to string"));
            },
        };
        match args[2].as_str() {
            Some(t) => Ok(GuiEvent::ClipboardSet { primary: str_eq(w, "*"), text: t.to_owned() }),
            None => Err(message("Can't convert argument to string")),
        }
    } else {
        Ok(GuiEvent::UnknownClipboardOption(o.to_owned()))
    }
}

fn parse_option(args: Vec<Value>) -> (r: Result<GuiEvent, GuiEventError>)
    ensures
        match r {
            Ok(e) => option_of(args@) == Ok::<GuiEventView, GuiEventErrorView>(e@),
            Err(e) => option_of(args@) == Err::<GuiEventView, GuiEventErrorView>(e@),
        },
{
    let ghost a = args@;
    let mut args = args;
    let name = match crate::value::take_front(&mut args) {
        None => {
            return Err(message("UI extension name missing"));
        },
        Some(Value::String(Some(s))) => s,
        Some(Value::String(None)) => {
            return Err(message("Can't convert to utf8 string"));
        },
        Some(_) => {
            return Err(message("Can't convert to string"));
        },
    };
    let value = match crate::value::take_front(&mut args) {
        None => {
            return Err(message("New value for UI extension is missing"));
        },
        Some(v) => v,
    };
    assert(value == a[1]);
    match value.as_i64() {
        Some(v) => Ok(GuiEvent::UiOption { name, enable: v != 0 }),
        None => Err(message("Can't convert argument to int")),
    }
}

/// Decodes the `Gui` notification `method` with `args` into what it asks the UI to do.
pub fn parse_gui_event(method: &str, args: Vec<Value>) -> (r: Result<GuiEvent, GuiEventError>)
    requires
        gui_args_present(method@, args@),
    ensures
        match r {
            Ok(e) => gui_event_of(method@, args@) == Ok::<GuiEventView, GuiEventErrorView>(e@),
            Err(e) => gui_event_of(method@, args@) == Err::<GuiEventView, GuiEventErrorView>(e@),
        },
{
    if str_eq(method, "Font") {
        match setter_string(args, "set_font") {
            Ok(s) => Ok(GuiEvent::Font(s)),
            Err(e) => Err(e),
        }
    } else if str_eq(method, "FontFeatures") {
        match setter_string(args, "set_font_features") {
            Ok(s) => Ok(GuiEvent::FontFeatures(s)),
            Err(e) => Err(e),
        }
    } else if str_eq(method, "Linespace") {
        match setter_string(args, "set_line_space") {
            Ok(s) => Ok(GuiEvent::Linespace(s)),
            Err(e) => Err(e),
        }
    } else if str_eq(method, "Clipboard") {
        parse_clipboard(&args)
    } else if str_eq(method, "Option") {
        parse_option(args)
    } else if str_eq(method, "Command") {
        parse_command(&args)
    } else {
        Err(GuiEventError::Unsupported(method.to_owned(), args))
    }
}

/// What the `Gui` request `method` with `args` asks: whether to read the primary selection
/// (`*`) rather than the clipboard.
pub open spec fn gui_request_of(method: Seq<char>, args: Seq<Value>) -> Result<bool, GuiEventErrorView> {
    if method == "Clipboard"@ {
        match str_of(args[0]) {
            None => Err(not_a_string()),
            Some(o) => if o == "Get"@ {
                match str_of(args[1]) {
                    None => Err(not_a_string()),
                    Some(w) => Ok(w == "*"@),
                }
            } else {
                Err(GuiEventErrorView::Message("Unknown option: "@ + o))
            },
        }
    } else {
        Err(GuiEventErrorView::Unsupported(method, args))
    }
}

/// The arguments the `Gui` request `method` indexes are there.
pub open spec fn gui_request_args_present(method: Seq<char>, args: Seq<Value>) -> bool {
    method == "Clipboard"@ ==> args.len() >= 1 && (str_of(args[0]) == Some("Get"@) ==> args.len() >= 2)
}

/// Decodes the `Gui` request `method` with `args`: `Ok(true)` to read the primary selection,
/// `Ok(false)` to read the clipboard.
pub fn parse_gui_request(method: &str, args: Vec<Value>) -> (r: Result<bool, GuiEventError>)
    requires
        gui_request_args_present(method@, args@),
    ensures
        match r {
            Ok(p) => gui_request_of(method@, args@) == Ok::<bool, GuiEventErrorView>(p),
            Err(e) => gui_request_of(method@, args@) == Err::<bool, GuiEventErrorView>(e@),
        },
{
    if !str_eq(method, "Clipboard") {
        return Err(GuiEventError::Unsupported(method.to_owned(), args));
    }
    let o = match args[0].as_str() {
        Some(o) => o,
        None => {
            return Err(message("Can't convert argument to string"));
        },
    };
    if str_eq(o, "Get") {
        match args[1].as_str() {
            Some(w) => Ok(str_eq(w, "*")),
            None => Err(message("Can't convert argument to string")),
        }
    } else {
        Err(GuiEventError::Message("Unknown option: ".to_owned().concat(o)))
    }
}

/// Scans `s` for newlines: the lines already ended and the line still open.
pub open spec fn newline_scan(s: Seq<char>) -> (Seq<Seq<char>>, Seq<char>)
    decreases s.len(),
{
    if s.len() == 0 {
        (Seq::empty(), Seq::empty())
    } else {
        let (done, cur) = newline_scan(s.drop_last());
        if s.last() == '\n' {
            (done.push(cur), Seq::empty())
        } else {
            (done, cur.push(s.last()))
        }
    }
}

/// The pieces of `s` between newlines, as `str::split('\n')` gives them: one more than the
/// newlines in `s`.
pub open spec fn split_newlines(s: Seq<char>) -> Seq<Seq<char>> {
    let (done, cur) = newline_scan(s);
    done.push(cur)
}

/// The clipboard text as the reply lists it: the pieces between newlines.
pub fn clipboard_lines(text: &str) -> (r: Vec<String>)
    ensures
        r@.len() == split_newlines(text@).len(),
        forall|i: int| 0 <= i < r@.len() ==> #[trigger] r@[i]@ == split_newlines(text@)[i],
{
    let chars = str_chars(text);
    let mut done: Vec<String> = Vec::new();
    let mut cur = String::new();
    let mut i: usize = 0;
    while i < chars.len()
        invariant
            i <= chars@.len(),
            chars@ == text@,
            done@.len() == newline_scan(chars@.subrange(0, i as int)).0.len(),
            forall|k: int| 0 <= k < done@.len() ==> #[trigger] done@[k]@ == newline_scan(chars@.subrange(0, i as int)).0[k],
            cur@ == newline_scan(chars@.subrange(0, i as int)).1,
        decreases chars@.len() - i,
    {
        assert(chars@.subrange(0, i + 1).drop_last() == chars@.subrange(0, i as int));
        assert(chars@.subrange(0, i + 1).last() == chars@[i as int]);
        if chars[i] == '\n' {
            let mut next = String::new();
            std::mem::swap(&mut next, &mut cur);
            done.push(next);
        } else {
            crate::text::string_push(&mut cur, chars[i]);
        }
        i = i + 1;
    }
    assert(chars@.subrange(0, chars@.len() as int) == chars@);
    done.push(cur);
    done
}

/// The UI extensions behind an option of an `Option` event.
pub open spec fn option_extensions(name: Seq<char>) -> Option<Seq<Seq<char>>> {
    if name == "Popupmenu"@ {
        Some(seq!["ext_popupmenu"@])
    } else if name == "Tabline"@ {
        Some(seq!["ext_tabline"@])
    } else if name == "Cmdline"@ {
        Some(seq!["ext_cmdline"@, "ext_wildmenu"@])
    } else {
        None
    }
}

/// Whether the API Neovim announced supports extension `ext`; nothing is supported before it
/// is known.
pub open spec fn ext_supported(api_info: Option<&NeovimApiInfo>, ext: Seq<char>) -> bool {
    match api_info {
        Some(a) => if ext == "ext_popupmenu"@ {
            a.ext_popupmenu
        } else if ext == "ext_tabline"@ {
            a.ext_tabline
        } else if ext == "ext_cmdline"@ {
            a.ext_cmdline
        } else if ext == "ext_wildmenu"@ {
            a.ext_wildmenu
        } else {
            false
        },
        None => false,
    }
}

/// The UI extensions behind the option `name` of an `Option` event, each with whether Neovim
/// supports it; `None` for an unknown option.
pub fn ui_option_extensions(name: &str, api_info: Option<&NeovimApiInfo>) -> (r: Option<Vec<(&'static str, bool)>>)
    ensures
        r.is_some() == option_extensions(name@).is_some(),
        r is Some ==> r.unwrap()@.len() == option_extensions(name@).unwrap().len(),
        r is Some ==> forall|i: int| 0 <= i < r.unwrap()@.len() ==> (#[trigger] r.unwrap()@[i]).0@ == option_extensions(name@).unwrap()[i]
            && r.unwrap()@[i].1 == ext_supported(api_info, option_extensions(name@).unwrap()[i]),
{
    proof {
        reveal_strlit("ext_popupmenu");
        reveal_strlit("ext_tabline");
        reveal_strlit("ext_cmdline");
        reveal_strlit("ext_wildmenu");
    }
    if str_eq(name, "Popupmenu") {
        let supported = match api_info {
            Some(a) => a.ext_popupmenu,
            None => false,
        };
        let v = vec![("ext_popupmenu", supported)];
        assert(v@[0].0@ == option_extensions(name@).unwrap()[0]);
        assert(v@[0].1 == ext_supported(api_info, option_extensions(name@).unwrap()[0]));
        Some(v)
    } else if str_eq(name, "Tabline") {
        let supported = match api_info {
            Some(a) => a.ext_tabline,
            None => false,
        };
        let v = vec![("ext_tabline", supported)];
        assert("ext_tabline"@ != "ext_popupmenu"@) by {
            assert("ext_tabline"@[4] != "ext_popupmenu"@[4]);
        }
        assert(v@[0].0@ == option_extensions(name@).unwrap()[0]);
        assert(v@[0].1 == ext_supported(api_info, option_extensions(name@).unwrap()[0]));
        Some(v)
    } else if str_eq(name, "Cmdline") {
        let cmdline = match api_info {
            Some(a) => a.ext_cmdline,
            None => false,
        };
        let wildmenu = match api_info {
            Some(a) => a.ext_wildmenu,
            None => false,
        };
        let v = vec![("ext_cmdline", cmdline), ("ext_wildmenu", wildmenu)];
        assert("ext_cmdline"@ != "ext_popupmenu"@ && "ext_cmdline"@ != "ext_tabline"@) by {
            assert("ext_cmdline"@[4] != "ext_popupmenu"@[4]);
            assert("ext_cmdline"@[4] != "ext_tabline"@[4]);
        }
        assert("ext_wildmenu"@ != "ext_popupmenu"@ && "ext_wildmenu"@ != "ext_tabline"@ && "ext_wildmenu"@ != "ext_cmdline"@) by {
            assert("ext_wildmenu"@[4] != "ext_popupmenu"@[4]);
            assert("ext_wildmenu"@[4] != "ext_tabline"@[4]);
            assert("ext_wildmenu"@[4] != "ext_cmdline"@[4]);
        }
        assert(v@[0].0@ == option_extensions(name@).unwrap()[0]);
        assert(v@[0].1 == ext_supported(api_info, option_extensions(name@).unwrap()[0]));
        assert(v@[1].0@ == option_extensions(name@).unwrap()[1]);
        assert(v@[1].1 == ext_supported(api_info, option_extensions(name@).unwrap()[1]));
        Some(v)
    } else {
        None
    }
}

} // verus!
