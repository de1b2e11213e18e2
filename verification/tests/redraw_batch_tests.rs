use nvim_gtk::nvim::event::{GridLineCell, PopupMenuItem, RedrawEvent};
use nvim_gtk::nvim::ext_line_grid::{expanded_len, ExtLineGridMap};
use nvim_gtk::nvim::ext_popup_menu::ExtPopupMenu;
use nvim_gtk::nvim::redraw::{handle_redraw_event, redraw_event_fits, FlushState};

fn cell(text: &str, repeat: Option<u64>) -> GridLineCell {
    GridLineCell { text: text.to_owned(), highlight_id: None, repeat }
}

#[test]
fn batch_draws_into_the_grid_and_reports_flush() {
    let mut grids = ExtLineGridMap::new();
    let mut menu = ExtPopupMenu::new();
    let mut flush = FlushState::default();
    let events = vec![
        RedrawEvent::GridResize { grid: 1, width: 4, height: 2 },
        RedrawEvent::GridLine { grid: 1, row: 1, column_start: 1, cells: vec![cell("a", None), cell("b", Some(2))] },
        RedrawEvent::GridCursorGoto { grid: 1, row: 1, column: 3 },
    ];
    assert!(!handle_redraw_event(&mut flush, &mut grids, &mut menu, &events));
    let g = grids.get_default().unwrap();
    let row: Vec<&str> = g.buffer()[1].columns().iter().map(|c| c.text.as_str()).collect();
    assert_eq!(row, vec![" ", "a", "b", "b"]);
    assert_eq!((g.cursor_position().row, g.cursor_position().column), (1, 3));

    assert!(handle_redraw_event(&mut flush, &mut grids, &mut menu, &[RedrawEvent::GridClear { grid: 1 }, RedrawEvent::Flush]));
    let g = grids.get_default().unwrap();
    assert!(g.buffer()[1].columns().iter().all(|c| c.text == " "));
}

#[test]
fn popup_menu_follows_show_select_hide() {
    let mut grids = ExtLineGridMap::new();
    let mut menu = ExtPopupMenu::new();
    let mut flush = FlushState::default();
    let item = PopupMenuItem { word: "w".to_owned(), kind: "k".to_owned(), menu: "m".to_owned(), info: "i".to_owned() };
    let events = vec![
        RedrawEvent::PopupmenuShow { items: vec![item.clone()], selected: None, row: 2, col: 3, grid: 1 },
        RedrawEvent::PopupmenuSelect { selected: Some(0) },
    ];
    handle_redraw_event(&mut flush, &mut grids, &mut menu, &events);
    assert!(flush.popup_changed);
    let shown = menu.get().unwrap();
    assert_eq!(shown.selected, Some(0));
    assert_eq!((shown.row, shown.col), (2, 3));
    assert_eq!(shown.items, vec![item]);
    handle_redraw_event(&mut flush, &mut grids, &mut menu, &[RedrawEvent::PopupmenuHide]);
    assert!(menu.get().is_none());
}

#[test]
fn destroy_removes_the_grid() {
    let mut grids = ExtLineGridMap::new();
    let mut menu = ExtPopupMenu::new();
    let mut flush = FlushState::default();
    handle_redraw_event(&mut flush, &mut grids, &mut menu, &[RedrawEvent::GridResize { grid: 2, width: 1, height: 1 }]);
    assert!(grids.get(&2).is_some());
    handle_redraw_event(&mut flush, &mut grids, &mut menu, &[RedrawEvent::GridDestroy { grid: 2 }]);
    assert!(grids.get(&2).is_none());
}

#[test]
fn events_that_do_not_fit_are_detected() {
    let mut grids = ExtLineGridMap::new();
    let mut menu = ExtPopupMenu::new();
    let mut flush = FlushState::default();
    handle_redraw_event(&mut flush, &mut grids, &mut menu, &[RedrawEvent::GridResize { grid: 1, width: 3, height: 2 }]);
    let too_long = RedrawEvent::GridLine { grid: 1, row: 0, column_start: 2, cells: vec![cell("x", Some(2))] };
    assert!(!redraw_event_fits(&grids, &too_long));
    let fits = RedrawEvent::GridLine { grid: 1, row: 1, column_start: 1, cells: vec![cell("x", Some(2))] };
    assert!(redraw_event_fits(&grids, &fits));
    let bad_scroll = RedrawEvent::GridScroll { grid: 1, top: 0, bottom: 5, left: 0, right: 3, rows: 1, columns: 0 };
    assert!(!redraw_event_fits(&grids, &bad_scroll));
    assert_eq!(expanded_len(&[cell("a", Some(3)), cell("b", None)]), Some(4));
}
