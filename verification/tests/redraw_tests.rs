use nvim_gtk::nvim::redraw_handler::{finish_call, max_mode, set_ui_opt_plan, PendingPopupMenu, PopupMenuItem, RedrawMode, RedrawState};

fn show() -> PendingPopupMenu {
    PendingPopupMenu::Show { items: vec![], selected: None, pos: (0, 0) }
}

#[test]
fn test_pending_popupmenu() {
    let mut test_val = PendingPopupMenu::Select(None);
    test_val.update(show().clone());
    assert_eq!(test_val, show());

    test_val.update(PendingPopupMenu::Empty);
    assert_eq!(test_val, show());

    test_val.update(PendingPopupMenu::Select(Some(1)));
    assert_eq!(test_val, PendingPopupMenu::Show { items: vec![], selected: Some(1), pos: (0, 0) });

    test_val.update(PendingPopupMenu::Show { items: vec![], selected: None, pos: (1, 2) });
    assert_eq!(test_val, PendingPopupMenu::Show { items: vec![], selected: None, pos: (1, 2) });

    test_val.update(PendingPopupMenu::Hide);
    assert_eq!(test_val, PendingPopupMenu::Hide);

    assert_eq!(test_val.take(), PendingPopupMenu::Hide);
    assert_eq!(test_val, PendingPopupMenu::Empty);
}

#[test]
fn redraw_modes_accumulate_until_flush() {
    let mut state = RedrawState { pending_redraw: RedrawMode::Nothing, pending_popupmenu: PendingPopupMenu::Empty };
    assert_eq!(finish_call(&mut state, RedrawMode::Cursor, false), (RedrawMode::Nothing, PendingPopupMenu::Empty));
    assert_eq!(finish_call(&mut state, RedrawMode::All, false), (RedrawMode::Nothing, PendingPopupMenu::Empty));
    assert_eq!(finish_call(&mut state, RedrawMode::ClearCache, false), (RedrawMode::Nothing, PendingPopupMenu::Empty));
    state.pending_popupmenu.update(PendingPopupMenu::Hide);
    assert_eq!(finish_call(&mut state, RedrawMode::Nothing, true), (RedrawMode::All, PendingPopupMenu::Hide));
    assert_eq!(state.pending_redraw, RedrawMode::Nothing);
    assert_eq!(state.pending_popupmenu, PendingPopupMenu::Empty);
    assert_eq!(max_mode(RedrawMode::Cursor, RedrawMode::ClearCache), RedrawMode::ClearCache);
}

#[test]
fn popup_menu_item_needs_four_columns() {
    let cols = vec!["w".to_owned(), "k".to_owned(), "m".to_owned(), "i".to_owned(), "extra".to_owned()];
    assert_eq!(
        PopupMenuItem::new(cols),
        Ok(PopupMenuItem { word: "w".to_owned(), kind: "k".to_owned(), menu: "m".to_owned(), info: "i".to_owned() })
    );
    assert_eq!(PopupMenuItem::new(vec!["w".to_owned()]), Err("Complete item is missing kind".to_owned()));
    assert_eq!(PopupMenuItem::new(vec![]), Err("Complete item is missing word".to_owned()));
}

#[test]
fn ui_option_plan() {
    assert_eq!(set_ui_opt_plan(&[("ext_cmdline", true), ("ext_wildmenu", true)], true), Ok(true));
    assert_eq!(
        set_ui_opt_plan(&[("ext_cmdline", true), ("ext_wildmenu", false)], true),
        Err("ext_wildmenu is not supported by your version of neovim, please update!".to_owned())
    );
    assert_eq!(set_ui_opt_plan(&[("ext_popupmenu", false)], false), Ok(false));
}
