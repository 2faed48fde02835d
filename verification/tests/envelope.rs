use axor::decode_str;
use axor::encode_str;
use axor::Payload;
use serde_json::Value;

#[test]
fn payload_new_has_no_data() {
    let p = Payload::new("HelloAgent.hello");
    assert_eq!(p.name, "HelloAgent.hello");
    assert!(p.data.is_none());
    assert!(p.success);
}

#[test]
fn payload_with_data_carries_data() {
    let p = Payload::with_data("PrintAgent.print_message", Value::String("test".to_string()));
    assert_eq!(p.name, "PrintAgent.print_message");
    assert_eq!(p.data, Some(Value::String("test".to_string())));
    assert!(p.success);
}

#[test]
fn op_name_splits_at_first_separator() {
    let p = Payload::new("HelloAgent.hello");
    assert_eq!(p.op_name(), Some("hello"));
    assert_eq!(p.op_name_unchecked(), "hello");

    let p = Payload::new("A.b.c");
    assert_eq!(p.op_name(), Some("b.c"));

    let p = Payload::new("NoSeparator");
    assert_eq!(p.op_name(), None);

    let p = Payload::new("Trailing.");
    assert_eq!(p.op_name(), Some(""));
}

#[test]
fn input_string_decodes_string_data_only() {
    let p = Payload::with_data("A.b", Value::String("test".to_string()));
    assert_eq!(p.input_string(), Some("test".to_string()));

    let p = Payload::with_data("A.b", Value::Null);
    assert_eq!(p.input_string(), None);

    let p = Payload::new("A.b");
    assert_eq!(p.input_string(), None);
}

#[test]
fn string_codec_round_trips() {
    let v = encode_str("Hello, world!");
    assert_eq!(v, Value::String("Hello, world!".to_string()));
    assert_eq!(decode_str(&v), Some("Hello, world!".to_string()));
    assert_eq!(decode_str(&Value::Bool(true)), None);
    assert_eq!(decode_str(&Value::Null), None);
    assert_eq!(axor::codec::string_round_trip("test"), Some("test".to_string()));
}
