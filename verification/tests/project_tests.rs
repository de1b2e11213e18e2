use nvim_gtk::nvim::ext::CallError;
use nvim_gtk::project::list_old_files;
use nvim_gtk::value::Value;

fn text(s: &str) -> Value {
    Value::String(Some(s.to_owned()))
}

#[test]
fn old_files_keep_paths_but_terminals() {
    let answer = Ok(Value::Array(vec![
        text("/home/u/a.rs"),
        text("term://~//1234:/bin/bash"),
        Value::PosInt(3),
        text("b.txt"),
        text("ter"),
    ]));
    assert_eq!(list_old_files(&answer), vec!["/home/u/a.rs".to_owned(), "b.txt".to_owned(), "ter".to_owned()]);
}

#[test]
fn old_files_are_empty_without_a_list() {
    assert!(list_old_files(&Ok(text("/a"))).is_empty());
    assert!(list_old_files(&Err(CallError::Other)).is_empty());
    assert!(list_old_files(&Err(CallError::NeovimError(Some(1), "E5555".to_owned()))).is_empty());
}

use nvim_gtk::project::{Entry, EntryStore, ProjectEntrySettings};

#[test]
fn recent_file_entry_escapes_its_name_and_directory() {
    let e = Entry::new_from_path("/tmp/a&b/<x>'s \"y\".txt");
    assert_eq!(e.name, "<x>'s \"y\".txt");
    assert_eq!(e.file_name, "&lt;x&gt;&#x27;s &quot;y&quot;.txt");
    assert_eq!(e.path, "<small>/tmp/a&amp;b</small>");
    assert_eq!(e.pixbuf, "text-x-generic");
    assert!(!e.project && !e.stored);
}

#[test]
fn entries_without_parent_or_name() {
    let root = Entry::new_current_project("/");
    assert_eq!(root.name, "/");
    assert_eq!(root.path, "");
    assert_eq!(root.pixbuf, "folder");
    assert!(root.project && !root.stored);
    let odd = Entry::new_from_path("/");
    assert_eq!(odd.name, "<empty>");
}

#[test]
fn stored_project_entry() {
    let e = ProjectEntrySettings::new("Proj", "/home/u/proj").to_entry();
    assert_eq!(e.uri, "/home/u/proj");
    assert_eq!(e.name, "Proj");
    assert_eq!(e.file_name, "Proj");
    assert_eq!(e.path, "<small>/home/u</small>");
    assert_eq!(e.pixbuf, "user-bookmarks");
    assert!(e.project && e.stored);
}

#[test]
fn store_loads_projects_cwd_and_recent_files() {
    let projects = vec![ProjectEntrySettings::new("p", "/w/p")];
    let oldfiles = Ok(Value::Array(vec![text("/w/p/a.rs"), text("term://x")]));
    let store = EntryStore::load(&projects, &Ok(text("/w/q")), &oldfiles);
    let uris: Vec<&str> = store.entries.iter().map(|e| e.uri.as_str()).collect();
    assert_eq!(uris, vec!["/w/q", "/w/p", "/w/p/a.rs"]);
    assert_eq!(store.entries[0].name, "q");
    assert!(!store.changed);

    let store = EntryStore::load(&projects, &Ok(text("/w/p")), &Err(CallError::Other));
    let uris: Vec<&str> = store.entries.iter().map(|e| e.uri.as_str()).collect();
    assert_eq!(uris, vec!["/w/p"]);
}

#[test]
fn store_toggles_and_saves_stored_projects() {
    let projects = vec![ProjectEntrySettings::new("p", "/w/p"), ProjectEntrySettings::new("r", "/w/r")];
    let mut store = EntryStore::load(&projects, &Ok(text("/w/q")), &Ok(Value::Nil));
    assert!(store.save().is_none());
    assert_eq!(store.find_mut("/w/r"), Some(2));
    assert_eq!(store.find_mut("/nowhere"), None);
    store.set_stored("/w/q", true);
    store.set_stored("/w/p", false);
    let saved: Vec<(String, String)> = store.save().unwrap().into_iter().map(|p| (p.name, p.path)).collect();
    assert_eq!(saved, vec![("q".to_owned(), "/w/q".to_owned()), ("r".to_owned(), "/w/r".to_owned())]);
}

#[test]
fn filter_matches_name_or_directory_in_any_case() {
    let e = Entry::new_from_path("/Home/Docs/notes.TXT");
    assert!(e.matches_filter(None));
    assert!(e.matches_filter(Some("notes.txt")));
    assert!(e.matches_filter(Some("docs")));
    assert!(!e.matches_filter(Some("music")));
    assert!(e.matches_filter(Some("")));
}
