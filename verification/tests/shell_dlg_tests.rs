use nvim_gtk::nvim::ext::CallError;
use nvim_gtk::shell_dlg::{
    can_close_window, closes_after_answer, get_changed_buffers, not_saved_message, CloseDecision, SaveAnswer,
};
use nvim_gtk::value::Value;

#[test]
fn changed_buffers_are_the_modified_ones() {
    let buffers = vec![
        (Ok(Value::Boolean(true)), Ok("a.rs".to_owned())),
        (Ok(Value::Boolean(false)), Ok("b.rs".to_owned())),
        (Ok(Value::PosInt(1)), Ok("c.rs".to_owned())),
        (Err(CallError::Other), Ok("d.rs".to_owned())),
        (Ok(Value::Boolean(true)), Err(CallError::Other)),
        (Ok(Value::Boolean(true)), Ok(String::new())),
    ];
    assert_eq!(get_changed_buffers(&buffers), vec!["a.rs".to_owned(), "<Error>".to_owned(), String::new()]);
}

#[test]
fn question_lists_one_buffer_per_line() {
    let names = vec!["a.rs".to_owned(), String::new(), "b.rs".to_owned()];
    assert_eq!(not_saved_message(&names), "Save changes to 'a.rs\n<No name>\nb.rs'?");
    assert_eq!(not_saved_message(&vec!["x".to_owned()]), "Save changes to 'x'?");
}

#[test]
fn closing_asks_only_with_unsaved_buffers() {
    let changed = vec!["a".to_owned()];
    let none: Vec<String> = Vec::new();
    assert_eq!(can_close_window(true, true, true, Some(&changed)), CloseDecision::Close);
    assert_eq!(can_close_window(false, false, true, Some(&changed)), CloseDecision::Close);
    assert_eq!(can_close_window(false, true, true, Some(&changed)), CloseDecision::Keep);
    assert_eq!(can_close_window(false, true, false, Some(&changed)), CloseDecision::AskToSave);
    assert_eq!(can_close_window(false, true, false, Some(&none)), CloseDecision::Close);
    assert_eq!(can_close_window(false, true, false, None), CloseDecision::Close);
}

#[test]
fn answers_decide_the_close() {
    assert!(closes_after_answer(SaveAnswer::Yes, true));
    assert!(!closes_after_answer(SaveAnswer::Yes, false));
    assert!(closes_after_answer(SaveAnswer::No, false));
    assert!(!closes_after_answer(SaveAnswer::Cancel, true));
}
