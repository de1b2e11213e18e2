use nvim_gtk::nvim::api_info::{ApiInfoError, NeovimApiInfo};
use nvim_gtk::value::Value;

fn s(t: &str) -> Value {
    Value::String(Some(t.to_owned()))
}

fn reply(metadata: Vec<(Value, Value)>) -> Vec<Value> {
    vec![Value::PosInt(3), Value::Pairs(metadata)]
}

#[test]
fn api_info_reads_channel_extensions_and_functions() {
    let info = NeovimApiInfo::new(reply(vec![
        (s("version"), Value::Nil),
        (s("ui_options"), Value::Array(vec![s("ext_linegrid"), s("ext_tabline"), s("other")])),
        (
            s("functions"),
            Value::Array(vec![
                Value::Pairs(vec![(s("since"), Value::PosInt(1)), (s("name"), s("nvim_ui_pum_set_height"))]),
                Value::Pairs(vec![(s("name"), s("nvim_input"))]),
            ]),
        ),
    ]))
    .unwrap();
    assert_eq!(info.channel, 3);
    assert!(info.ext_linegrid && info.ext_tabline && !info.ext_cmdline && !info.ext_popupmenu);
    assert!(info.ui_pum_set_height && !info.ui_pum_set_bounds);
}

#[test]
fn api_info_errors_on_the_reply_shape() {
    assert_eq!(NeovimApiInfo::new(vec![]).unwrap_err(), ApiInfoError::ChannelMissing);
    assert_eq!(NeovimApiInfo::new(vec![s("x")]).unwrap_err(), ApiInfoError::ChannelNotI64);
    assert_eq!(NeovimApiInfo::new(vec![Value::PosInt(1)]).unwrap_err(), ApiInfoError::MetadataMissing);
    assert_eq!(
        NeovimApiInfo::new(vec![Value::PosInt(1), Value::Nil]).unwrap_err(),
        ApiInfoError::MetadataWrongType(Value::Nil)
    );
    assert_eq!(
        NeovimApiInfo::new(reply(vec![(Value::PosInt(7), Value::Nil)])).unwrap_err(),
        ApiInfoError::MetadataKeyNotString(Value::PosInt(7))
    );
}

#[test]
fn api_info_errors_carry_the_offending_value() {
    assert_eq!(
        NeovimApiInfo::new(reply(vec![(s("ui_options"), Value::PosInt(2))])).unwrap_err(),
        ApiInfoError::UiOptionListInvalid(Value::PosInt(2))
    );
    assert_eq!(
        NeovimApiInfo::new(reply(vec![(s("ui_options"), Value::Array(vec![s("ext_cmdline"), Value::PosInt(2)]))]))
            .unwrap_err(),
        ApiInfoError::UiOptionNotString(Value::Array(vec![s("ext_cmdline"), Value::PosInt(2)]))
    );
    assert_eq!(
        NeovimApiInfo::new(reply(vec![(s("functions"), Value::Boolean(true))])).unwrap_err(),
        ApiInfoError::FunctionListInvalid(Value::Boolean(true))
    );
    assert_eq!(
        NeovimApiInfo::new(reply(vec![(
            s("functions"),
            Value::Array(vec![Value::Pairs(vec![(s("name"), s("f"))]), Value::PosInt(9)])
        )]))
        .unwrap_err(),
        ApiInfoError::FunctionInfoNotMap(Value::PosInt(9))
    );
    assert_eq!(
        NeovimApiInfo::new(reply(vec![(s("functions"), Value::Array(vec![Value::Pairs(vec![(s("x"), s("y"))])]))]))
            .unwrap_err(),
        ApiInfoError::FunctionInfoMissingName(Value::Array(vec![Value::Pairs(vec![(s("x"), s("y"))])]))
    );
}

#[test]
fn api_info_error_messages_surround_the_value() {
    let e = ApiInfoError::MetadataKeyNotString(Value::PosInt(7));
    let (before, value, after) = e.message_parts();
    assert_eq!((before.as_str(), value, after.as_str()), ("Metadata key ", Some(&Value::PosInt(7)), " isn't string"));
    let (before, value, after) = ApiInfoError::ChannelMissing.message_parts();
    assert_eq!((before.as_str(), value, after.as_str()), ("Channel is missing", None, ""));
}
