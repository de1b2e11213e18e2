use nvim_gtk::nvim::gui_event::{
    clipboard_lines, gui_args_are_present, parse_gui_event, parse_gui_request, parse_i32, ui_option_extensions, GuiCommand, GuiEvent, GuiEventError,
};
use nvim_gtk::value::Value;

fn s(text: &str) -> Value {
    Value::String(Some(text.to_owned()))
}

#[test]
fn font_events_take_their_string() {
    assert_eq!(parse_gui_event("Font", vec![s("Monospace 12")]), Ok(GuiEvent::Font("Monospace 12".to_owned())));
    assert_eq!(
        parse_gui_event("Font", vec![]),
        Err(GuiEventError::Message("No such argument for set_font".to_owned()))
    );
    assert_eq!(
        parse_gui_event("Linespace", vec![Value::PosInt(2)]),
        Err(GuiEventError::Message("Can't convert to string".to_owned()))
    );
    assert_eq!(
        parse_gui_event("FontFeatures", vec![Value::String(None)]),
        Err(GuiEventError::Message("Can't convert to utf8 string".to_owned()))
    );
}

#[test]
fn clipboard_set_chooses_selection() {
    assert_eq!(
        parse_gui_event("Clipboard", vec![s("Set"), s("*"), s("text")]),
        Ok(GuiEvent::ClipboardSet { primary: true, text: "text".to_owned() })
    );
    assert_eq!(
        parse_gui_event("Clipboard", vec![s("Set"), s("+"), s("text")]),
        Ok(GuiEvent::ClipboardSet { primary: false, text: "text".to_owned() })
    );
    assert_eq!(parse_gui_event("Clipboard", vec![s("Get")]), Ok(GuiEvent::UnknownClipboardOption("Get".to_owned())));
}

#[test]
fn option_event_reads_name_and_flag() {
    assert_eq!(
        parse_gui_event("Option", vec![s("Popupmenu"), Value::PosInt(1)]),
        Ok(GuiEvent::UiOption { name: "Popupmenu".to_owned(), enable: true })
    );
    assert_eq!(
        parse_gui_event("Option", vec![s("Tabline"), Value::PosInt(0)]),
        Ok(GuiEvent::UiOption { name: "Tabline".to_owned(), enable: false })
    );
    assert_eq!(
        parse_gui_event("Option", vec![s("Tabline")]),
        Err(GuiEventError::Message("New value for UI extension is missing".to_owned()))
    );
    assert_eq!(
        parse_gui_event("Option", vec![]),
        Err(GuiEventError::Message("UI extension name missing".to_owned()))
    );
    assert_eq!(
        parse_gui_event("Option", vec![s("Tabline"), s("1")]),
        Err(GuiEventError::Message("Can't convert argument to int".to_owned()))
    );
}

#[test]
fn command_events() {
    assert_eq!(parse_gui_event("Command", vec![s("ToggleSidebar")]), Ok(GuiEvent::Command(GuiCommand::ToggleSidebar)));
    assert_eq!(
        parse_gui_event("Command", vec![s("Transparency"), s("0.8")]),
        Ok(GuiEvent::Command(GuiCommand::Transparency("0.8".to_owned(), "1.0".to_owned())))
    );
    assert_eq!(
        parse_gui_event("Command", vec![s("PreferDarkTheme"), s("on")]),
        Ok(GuiEvent::Command(GuiCommand::PreferDarkTheme(true)))
    );
    assert_eq!(
        parse_gui_event("Command", vec![s("PreferDarkTheme")]),
        Ok(GuiEvent::Command(GuiCommand::PreferDarkTheme(false)))
    );
    assert_eq!(
        parse_gui_event("Command", vec![s("SetCursorBlink"), s("5")]),
        Ok(GuiEvent::Command(GuiCommand::SetCursorBlink(5)))
    );
    assert_eq!(
        parse_gui_event("Command", vec![s("SetCursorBlink"), s("fast")]),
        Ok(GuiEvent::Command(GuiCommand::SetCursorBlink(-1)))
    );
    assert_eq!(
        parse_gui_event("Command", vec![s("SetCursorBlink")]),
        Err(GuiEventError::Message("Can't convert argument to string".to_owned()))
    );
    assert_eq!(parse_gui_event("Command", vec![s("Nope")]), Ok(GuiEvent::UnknownCommand));
}

#[test]
fn unknown_event_is_unsupported() {
    assert_eq!(
        parse_gui_event("Bogus", vec![Value::Nil]),
        Err(GuiEventError::Unsupported("Bogus".to_owned(), vec![Value::Nil]))
    );
}

#[test]
fn i32_parsing_follows_std() {
    for text in ["0", "-5", "+7", "2147483647", "-2147483648", "2147483648", "-2147483649", "", "-", "+", "-+1", "1a", " 1", "007"] {
        assert_eq!(parse_i32(text), text.parse::<i32>().ok(), "{:?}", text);
    }
}

#[test]
fn ui_option_extension_lists() {
    let exts = ui_option_extensions("Cmdline", None).unwrap();
    assert_eq!(exts, vec![("ext_cmdline", false), ("ext_wildmenu", false)]);
    assert!(ui_option_extensions("Bogus", None).is_none());
}

#[test]
fn clipboard_request_and_reply() {
    assert_eq!(parse_gui_request("Clipboard", vec![s("Get"), s("*")]), Ok(true));
    assert_eq!(parse_gui_request("Clipboard", vec![s("Get"), s("+")]), Ok(false));
    assert_eq!(
        parse_gui_request("Clipboard", vec![s("Put")]),
        Err(GuiEventError::Message("Unknown option: Put".to_owned()))
    );
    assert_eq!(clipboard_lines("a\nb\n"), vec!["a".to_owned(), "b".to_owned(), "".to_owned()]);
    assert_eq!(clipboard_lines(""), vec!["".to_owned()]);
}

#[test]
fn gui_arguments_that_are_indexed_must_be_there() {
    assert!(!gui_args_are_present("Clipboard", &[]));
    assert!(gui_args_are_present("Clipboard", &[s("Get")]));
    assert!(!gui_args_are_present("Clipboard", &[s("Set")]));
    assert!(!gui_args_are_present("Clipboard", &[s("Set"), s("*")]));
    assert!(gui_args_are_present("Clipboard", &[s("Set"), Value::PosInt(1)]));
    assert!(gui_args_are_present("Clipboard", &[s("Set"), s("*"), s("text")]));
    assert!(!gui_args_are_present("Command", &[]));
    assert!(gui_args_are_present("Command", &[s("ToggleSidebar")]));
    assert!(gui_args_are_present("Font", &[]));
}
