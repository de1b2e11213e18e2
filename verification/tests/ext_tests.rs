use nvim_gtk::nvim::ext::{CallError, NormalError};

fn normal(msg: &str) -> Result<NormalError, ()> {
    NormalError::try_from(&CallError::NeovimError(Some(0), msg.to_owned()))
}

#[test]
fn test_normal_error() {
    assert_eq!(
        normal("Vim(source):E325: ATTENTION"),
        Ok(NormalError::Message {
            source: "source".to_owned(),
            message: "E325: ATTENTION".to_owned(),
            code: 325,
        })
    );
    assert_eq!(normal("source): E325: ATTENTION"), Err(()));
    assert_eq!(normal("Vim(source:E325: ATTENTION"), Err(()));
    assert_eq!(normal("Vim(source):EXXX: ATTENTION"), Err(()));
    assert_eq!(normal("Vim(source):325: ATTENTION"), Err(()));
    assert_eq!(normal("Vim(source)E325: ATTENTION"), Err(()));
    assert_eq!(normal("Vim(source):E325 ATTENTION"), Err(()));
    assert_eq!(normal("Keyboard interrupt"), Ok(NormalError::KeyboardInterrupt));
}

#[test]
fn other_errors_are_not_normal() {
    assert_eq!(NormalError::try_from(&CallError::Other), Err(()));
}

#[test]
fn has_code_matches_message_code() {
    let e = normal("Vim(echo):E121: Undefined variable").unwrap();
    assert!(e.has_code(121));
    assert!(!e.has_code(325));
    assert!(!NormalError::KeyboardInterrupt.has_code(0));
}
