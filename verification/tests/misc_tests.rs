use nvim_gtk::misc::{decode_uri, escape_filename, extract_name, split_at_comma, viml_escape};

#[test]
fn test_comma_split() {
    let res = split_at_comma("a,b");
    assert_eq!(2, res.len());
    assert_eq!("a", res[0]);
    assert_eq!("b", res[1]);

    let res = split_at_comma("a,b\\,c");
    assert_eq!(2, res.len());
    assert_eq!("a", res[0]);
    assert_eq!("b,c", res[1]);
}

#[test]
fn test_viml_escape() {
    assert_eq!(r#"a\"b\\"#, viml_escape(r#"a"b\"#));
}

#[test]
fn test_extract_name() {
    assert_eq!(
        Some("plugin_name".to_owned()),
        extract_name("http://github.com/somebody/plugin_name.git")
    );
}

#[test]
fn comma_split_drops_trailing_empty_part() {
    let res = split_at_comma(",a,");
    assert_eq!(vec!["".to_owned(), "a".to_owned()], res);
    assert!(split_at_comma("").is_empty());
}

#[test]
fn escape_filename_escapes_specials() {
    assert_eq!("a\\ b.txt", escape_filename("a b.txt"));
    assert_eq!("dir/file_1-2", escape_filename("dir/file_1-2"));
}

#[test]
fn decode_uri_strips_scheme_and_decodes() {
    assert_eq!(Some("/a b".to_owned()), decode_uri("file:///a%20b"));
}

#[test]
fn extract_name_without_git_suffix() {
    assert_eq!(Some("repo".to_owned()), extract_name("https://host/user/repo"));
}

#[test]
fn escape_filename_keeps_non_ascii_and_escapes_each_special() {
    assert_eq!(r"café\ \(1\)\$\\x", escape_filename(r"café (1)$\x"));
    assert_eq!(r#"\%\#\'\""#, escape_filename(r#"%#'""#));
    assert_eq!("", escape_filename(""));
}

#[test]
fn split_undoes_escaped_join() {
    let items = vec![",lead".to_owned(), "x,y".to_owned(), String::new(), "z".to_owned()];
    let joined = items.iter().map(|i| i.replace(',', r"\,")).collect::<Vec<_>>().join(",");
    assert_eq!(joined, r"\,lead,x\,y,,z");
    assert_eq!(split_at_comma(&joined), items);
}

#[test]
fn blank_plugin_name_comes_from_the_path() {
    assert_eq!(
        nvim_gtk::misc::plugin_entry_name_of("", "http://github.com/somebody/plugin_name.git"),
        "plugin_name"
    );
    assert_eq!(nvim_gtk::misc::plugin_entry_name_of(" \t\u{3000}", "user/repo"), "repo");
}

#[test]
fn blank_plugin_name_falls_back_to_the_path() {
    assert_eq!(nvim_gtk::misc::plugin_entry_name_of("   ", "repo_without_slash"), "repo_without_slash");
    assert_eq!(nvim_gtk::misc::plugin_entry_name_of("", "user/"), "user/");
}

#[test]
fn typed_plugin_name_is_kept_as_typed() {
    assert_eq!(nvim_gtk::misc::plugin_entry_name_of(" mine ", "user/repo"), " mine ");
    assert_eq!(nvim_gtk::misc::plugin_entry_name_of("x", ""), "x");
}
