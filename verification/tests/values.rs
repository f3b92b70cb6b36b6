use mijia::value::{has_prefix, text_is};
use mijia::Value;

#[test]
fn values_are_read_by_their_type() {
    let text = Value::Str("abc".to_string());
    assert_eq!(text.as_str(), Some("abc"));
    assert_eq!(text.as_bool(), None);
    assert_eq!(text.as_i16(), None);
    assert_eq!(text.as_u16(), None);
    assert_eq!(text.as_bytes(), None);
    assert!(text.as_variant().is_none());
    assert!(text.as_array().is_none());
    assert!(text.as_dict().is_none());
    assert_eq!(Value::Bool(true).as_bool(), Some(true));
    assert_eq!(Value::Bool(true).as_str(), None);
    assert_eq!(Value::Variant(Box::new(Value::UInt(3))).as_variant(), Some(&Value::UInt(3)));
    assert_eq!(Value::Array(vec![Value::Other]).as_array(), Some(&vec![Value::Other]));
    assert_eq!(Value::Dict(vec![]).as_dict(), Some(&vec![]));
}

#[test]
fn numbers_are_read_where_they_fit() {
    assert_eq!(Value::Int(-42).as_i16(), Some(-42));
    assert_eq!(Value::Int(-32768).as_i16(), Some(-32768));
    assert_eq!(Value::Int(32767).as_i16(), Some(32767));
    assert_eq!(Value::Int(32768).as_i16(), None);
    assert_eq!(Value::Int(-32769).as_i16(), None);
    assert_eq!(Value::UInt(1).as_i16(), None);
    assert_eq!(Value::UInt(65535).as_u16(), Some(65535));
    assert_eq!(Value::UInt(65536).as_u16(), None);
    assert_eq!(Value::Int(1).as_u16(), None);
}

#[test]
fn bytes_are_the_low_eight_bits_of_each_item() {
    let array = Value::Array(vec![Value::UInt(0), Value::UInt(255), Value::UInt(256), Value::UInt(0x1234)]);
    assert_eq!(array.as_bytes(), Some(vec![0, 255, 0, 0x34]));
    assert_eq!(Value::Array(vec![]).as_bytes(), Some(vec![]));
    assert_eq!(Value::Array(vec![Value::UInt(1), Value::Int(2)]).as_bytes(), None);
}

#[test]
fn texts_are_compared_character_by_character() {
    assert!(text_is("Address", "Address"));
    assert!(!text_is("Address", "Addresses"));
    assert!(!text_is("address", "Address"));
    assert!(text_is("", ""));
    assert!(has_prefix("service0010", "service"));
    assert!(has_prefix("service", "service"));
    assert!(!has_prefix("servic", "service"));
    assert!(!has_prefix("char0002", "service"));
    assert!(has_prefix("anything", ""));
    assert!(has_prefix("ünï", "ün"));
}
