use nvim_gtk::shell::{drop_command, focus_autocmd, FocusState, ResizeRequests};

#[test]
fn resize_requests_before_attach_are_ignored() {
    let mut r = ResizeRequests::new();
    assert!(!r.request((80, 24)));
    assert_eq!(r, ResizeRequests::new());
}

#[test]
fn one_committer_commits_the_last_request() {
    let mut r = ResizeRequests { current: Some((80, 24)), requested: None, active: false };
    assert!(r.request((100, 30)));
    assert!(!r.request((120, 40)));
    assert_eq!(r.next_commit(), Some((120, 40)));
    assert_eq!(r.current, Some((120, 40)));
    assert_eq!(r.next_commit(), None);
    assert!(!r.active);
    // asking for the committed size cancels a pending request
    r.requested = Some((1, 1));
    assert!(!r.request((120, 40)));
    assert_eq!(r.requested, None);
}

#[test]
fn focus_changes_are_sent_once() {
    let mut f = FocusState::new();
    assert!(!f.update(true, true));
    assert!(f.update(false, true));
    assert!(!f.update(true, true));
    assert!(!f.update(false, true));
    assert_eq!(f.next_event(), Some(false));
    assert_eq!(f.next_event(), None);
    assert!(!f.is_pending);
    assert_eq!(f.last, false);
    assert!(!f.update(true, false));
    assert_eq!(f.next, true);
}

#[test]
fn focus_autocmd_names() {
    assert_eq!(focus_autocmd(true), "if exists('#FocusGained')|doau FocusGained|endif");
    assert_eq!(focus_autocmd(false), "if exists('#FocusLost')|doau FocusLost|endif");
}

#[test]
fn dropped_files_become_argadd() {
    let uris = vec!["file:///tmp/a%20b.txt".to_owned(), "http://example.com/x".to_owned(), "file:///c".to_owned()];
    assert_eq!(drop_command(&uris), "ar /tmp/a\\ b.txt /c");
    assert_eq!(drop_command(&[]), "ar");
}

#[test]
fn completeopt_preview_is_detected() {
    assert!(nvim_gtk::shell::set_completeopts("menu,preview,noselect"));
    assert!(!nvim_gtk::shell::set_completeopts("menu,menuone"));
}

#[test]
fn paste_and_copy_requests() {
    assert_eq!(nvim_gtk::shell::edit_paste(true, "+"), (true, "normal! \"+P".to_owned()));
    assert_eq!(nvim_gtk::shell::edit_paste(false, "*"), (false, "<C-r>*".to_owned()));
    assert_eq!(nvim_gtk::shell::edit_copy("+"), "normal! \"+y");
}
