use nvim_gtk::nvim::redraw_call::{optional_u32, popupmenu_select_args, popupmenu_show_args, RedrawCallError};
use nvim_gtk::nvim::redraw_handler::{PendingPopupMenu, PopupMenuItem};
use nvim_gtk::popup_menu::{column_widths, find_scroll_count, list_select_input, widest_entries, ColumnWidths};
use nvim_gtk::value::Value;

#[test]
fn scroll_count_from_selection() {
    assert_eq!(find_scroll_count(-1, 3), 4);
    assert_eq!(find_scroll_count(2, 5), 3);
    assert_eq!(find_scroll_count(5, 2), 3);
}

#[test]
fn list_select_moves_then_runs_command() {
    assert_eq!(list_select_input(None, 1, "<CR>"), Some("<C-n><C-n><CR>".to_owned()));
    assert_eq!(list_select_input(Some(3), 1, ""), Some("<C-p><C-p>".to_owned()));
    assert_eq!(list_select_input(Some(2), 2, "<CR>"), None);
}

fn s(text: &str) -> Value {
    Value::String(Some(text.to_owned()))
}

fn item_value(cols: &[&str]) -> Value {
    Value::Array(cols.iter().map(|c| s(c)).collect())
}

#[test]
fn popupmenu_show_arguments() {
    let args = vec![
        Value::Array(vec![item_value(&["w", "k", "m", "i"])]),
        Value::NegInt(-1),
        Value::PosInt(3),
        Value::PosInt(4),
    ];
    assert_eq!(
        popupmenu_show_args(args),
        Ok(PendingPopupMenu::Show {
            items: vec![PopupMenuItem { word: "w".to_owned(), kind: "k".to_owned(), menu: "m".to_owned(), info: "i".to_owned() }],
            selected: None,
            pos: (3, 4),
        })
    );
    assert_eq!(popupmenu_show_args(vec![]), Err(RedrawCallError::Message("Menu list array is missing".to_owned())));
    assert_eq!(
        popupmenu_show_args(vec![Value::Array(vec![item_value(&["w", "k"])]), Value::PosInt(0), Value::PosInt(0), Value::PosInt(0)]),
        Err(RedrawCallError::Message("Complete item is missing menu".to_owned()))
    );
    assert_eq!(
        popupmenu_show_args(vec![Value::Array(vec![Value::Nil])]),
        Err(RedrawCallError::Message("Failed to get menu item array".to_owned()))
    );
    assert_eq!(
        popupmenu_show_args(vec![Value::Array(vec![]), Value::PosInt(1), Value::PosInt(2)]),
        Err(RedrawCallError::Message("Failed to get popupmenu col".to_owned()))
    );
}

#[test]
fn optional_index_values() {
    assert_eq!(optional_u32(Value::PosInt(7)), Ok(Some(7)));
    assert_eq!(optional_u32(Value::NegInt(-1)), Ok(None));
    assert_eq!(optional_u32(Value::NegInt(-2)), Err(RedrawCallError::NotOptionalIndex(Value::NegInt(-2))));
    assert_eq!(
        optional_u32(Value::PosInt(1 << 40)),
        Err(RedrawCallError::Message("out of range integral type conversion attempted".to_owned()))
    );
    assert_eq!(popupmenu_select_args(vec![Value::PosInt(2)]), Ok(PendingPopupMenu::Select(Some(2))));
}

fn item(word: &str, kind: &str, menu: &str) -> PopupMenuItem {
    PopupMenuItem { word: word.to_owned(), kind: kind.to_owned(), menu: menu.to_owned(), info: String::new() }
}

#[test]
fn widest_entries_pick_the_first_of_the_widest() {
    let items = vec![item("ab", "x", ""), item("abc", "", "m"), item("xyz", "y", "")];
    assert_eq!((Some(1), Some(0), Some(1)), widest_entries(&items));
}

#[test]
fn widest_entries_skip_columns_without_text() {
    let items = vec![item("a", "", ""), item("", "", "")];
    assert_eq!((Some(0), None, None), widest_entries(&items));
    assert_eq!((None, None, None), widest_entries(&Vec::new()));
}

#[test]
fn widest_entries_count_ambiguous_characters_double() {
    let items = vec![item("a", "", ""), item("±", "", "")];
    assert_eq!((Some(1), None, None), widest_entries(&items));
}

#[test]
fn column_widths_share_the_menu_width() {
    assert_eq!(
        ColumnWidths { word: 60, kind: Some(30), menu: Some(10) },
        column_widths(100, 50, Some(20), Some(30))
    );
    assert_eq!(
        ColumnWidths { word: 50, kind: Some(30), menu: Some(20) },
        column_widths(100, 40, Some(20), Some(10))
    );
}

#[test]
fn column_widths_cut_the_word_column_to_the_menu_width() {
    assert_eq!(ColumnWidths { word: 40, kind: None, menu: None }, column_widths(40, 50, None, None));
    assert_eq!(ColumnWidths { word: 25, kind: None, menu: None }, column_widths(40, 15, None, None));
}
