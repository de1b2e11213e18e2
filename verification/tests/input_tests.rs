use nvim_gtk::input::{convert_key, keyval_to_input_string, ModifierType};

fn mods(shift: bool, control: bool, alt: bool, meta: bool, super_key: bool) -> ModifierType {
    ModifierType { shift, control, alt, meta, super_key }
}

#[test]
fn test_keyval_to_input_string() {
    let none = ModifierType::empty();
    assert_eq!(keyval_to_input_string("a", none), "a");
    assert_eq!(keyval_to_input_string("", none), "");
    assert_eq!(keyval_to_input_string("6", none), "6");
    assert_eq!(keyval_to_input_string("2", none), "2");
    assert_eq!(keyval_to_input_string("<", none), "<lt>");
    assert_eq!(keyval_to_input_string("", mods(true, false, false, false, false)), "S");
    assert_eq!(keyval_to_input_string("", mods(true, true, true, false, false)), "SCA");
    assert_eq!(keyval_to_input_string("a", mods(true, false, false, false, false)), "<S-a>");
    assert_eq!(keyval_to_input_string("a", mods(true, true, true, false, false)), "<S-C-A-a>");
    assert_eq!(keyval_to_input_string("6", mods(false, true, false, false, false)), "<C-^>");
    assert_eq!(keyval_to_input_string("6", mods(false, true, false, true, false)), "<C-A-6>");
    assert_eq!(keyval_to_input_string("2", mods(false, true, false, false, false)), "<C-@>");
    assert_eq!(keyval_to_input_string("2", mods(false, true, true, false, false)), "<C-A-2>");
    assert_eq!(keyval_to_input_string("j", mods(false, false, false, false, true)), "j");
}

#[test]
fn convert_key_named_keys() {
    let none = ModifierType::empty();
    assert_eq!(convert_key(Some("Return"), None, none), Some("<CR>".to_owned()));
    assert_eq!(convert_key(Some("a"), Some('a'), mods(false, true, false, false, false)), Some("<C-a>".to_owned()));
}
