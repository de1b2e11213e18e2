use nvim_gtk::nvim::ext_tabline::Tabpage;
use nvim_gtk::tabline::{close_tab, reorder_page, switch_page};

fn tab(n: u8) -> Tabpage {
    Tabpage { ext: (2, vec![n]) }
}

#[test]
fn picking_the_selected_tab_sends_nothing() {
    let tabs = vec![tab(1), tab(2)];
    let selected = tab(1);
    assert_eq!(switch_page(&tabs, Some(&selected), 0), None);
    assert_eq!(switch_page(&tabs, Some(&selected), 1), Some(&tabs[1]));
    assert_eq!(switch_page(&tabs, None, 0), Some(&tabs[0]));
}

#[test]
fn moving_a_tab_counts_before_the_move() {
    assert_eq!(reorder_page(0, 2), "1tabd tabm 3");
    assert_eq!(reorder_page(3, 1), "4tabd tabm 1");
    assert_eq!(reorder_page(1, 1), "2tabd tabm 1");
}

#[test]
fn closing_a_tab_uses_its_number() {
    assert_eq!(close_tab(0), "tabc 1");
    assert_eq!(close_tab(11), "tabc 12");
}
