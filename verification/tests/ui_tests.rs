use nvim_gtk::ui::{decimal_string, format_window_title, wants_title};

#[test]
fn short_title_names_file_state_and_position() {
    let title = format_window_title("/home/u/p/src/a.rs", "/home/u/p", "~/p", 2, 3, true, true, false);
    assert_eq!(title, "src/a.rs + (2 of 3)");
}

#[test]
fn long_title_adds_directory_and_application() {
    let title = format_window_title("/home/u/p/src/a.rs", "/home/u/p", "~/p", 1, 1, false, true, true);
    assert_eq!(title, "src/a.rs (~/p) - neovim-gtk");
}

#[test]
fn title_of_unnamed_and_unmodifiable_buffers() {
    assert_eq!(format_window_title("", "/tmp", "/tmp", 1, 1, false, true, false), "[No Name]");
    assert_eq!(format_window_title("", "/tmp", "/tmp", 1, 1, true, false, false), "[No Name] -");
}

#[test]
fn title_keeps_paths_outside_the_directory() {
    assert_eq!(format_window_title("/etc/hosts", "/home/u", "~", 1, 1, false, true, false), "/etc/hosts");
    assert_eq!(
        format_window_title("/home/u/proj2/a", "/home/u/proj", "~/proj", 1, 1, false, true, false),
        "/home/u/proj2/a"
    );
    assert_eq!(format_window_title("/home/u/proj/a", "/home/u/proj/", "~/proj", 1, 1, false, true, false), "a");
}

#[test]
fn decimal_strings() {
    assert_eq!(decimal_string(0), "0");
    assert_eq!(decimal_string(7), "7");
    assert_eq!(decimal_string(1234567), "1234567");
    assert_eq!(decimal_string(u32::MAX), "4294967295");
}

#[test]
fn only_ordinary_windows_get_a_title() {
    assert!(wants_title("", ""));
    assert!(wants_title("", "terminal"));
    assert!(!wants_title("popup", ""));
    assert!(!wants_title("", "help"));
}
