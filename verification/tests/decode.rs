use luci::json::{decode, Field, FieldType, JsonValue, Record, Shape};
use luci::perm::is_secured_mode;
use luci::result::Error;

fn shape_of(fields: Vec<(&str, FieldType)>) -> Shape {
    Shape {
        fields: fields
            .into_iter()
            .map(|(name, ty)| Field { name: name.to_string(), ty })
            .collect(),
    }
}

fn object(pairs: Vec<(&str, JsonValue)>) -> JsonValue {
    JsonValue::Object(pairs.into_iter().map(|(k, v)| (k.to_string(), v)).collect())
}

#[test]
fn decode_accepts_conforming_object() {
    let shape = shape_of(vec![("host", FieldType::Text), ("port", FieldType::UInt)]);
    let value = object(vec![
        ("host", JsonValue::Text("127.0.0.1".to_string())),
        ("port", JsonValue::UInt(8000)),
    ]);
    let record = decode(&shape, value).unwrap();
    assert_eq!(record.get_u64(&"port".to_string()), Some(8000));
    assert_eq!(record.get_text(&"host".to_string()).unwrap().as_str(), "127.0.0.1");
}

#[test]
fn decode_rejects_non_object() {
    let shape = shape_of(vec![("host", FieldType::Text)]);
    let message = decode(&shape, JsonValue::Array(vec![])).unwrap_err();
    assert_eq!(message, "expected an object");
}

#[test]
fn decode_rejects_unknown_field() {
    let shape = shape_of(vec![("host", FieldType::Text)]);
    let value = object(vec![
        ("host", JsonValue::Text("h".to_string())),
        ("debug", JsonValue::Bool(true)),
    ]);
    let message = decode(&shape, value).unwrap_err();
    assert_eq!(message, "unknown field");
}

#[test]
fn decode_rejects_wrong_type() {
    let shape = shape_of(vec![("port", FieldType::UInt)]);
    let value = object(vec![("port", JsonValue::Text("8000".to_string()))]);
    let message = decode(&shape, value).unwrap_err();
    assert_eq!(message, "field value of wrong type");
}

#[test]
fn decode_rejects_missing_field() {
    let shape = shape_of(vec![("host", FieldType::Text), ("port", FieldType::UInt)]);
    let value = object(vec![("host", JsonValue::Text("h".to_string()))]);
    let message = decode(&shape, value).unwrap_err();
    assert_eq!(message, "missing field");
}

#[test]
fn decode_rejects_negative_for_unsigned() {
    let shape = shape_of(vec![("port", FieldType::UInt)]);
    let value = object(vec![("port", JsonValue::Int(-1))]);
    let message = decode(&shape, value).unwrap_err();
    assert_eq!(message, "field value of wrong type");
}

#[test]
fn integer_fields_coerce_within_range() {
    let shape = shape_of(vec![("a", FieldType::Int), ("b", FieldType::UInt)]);
    let value = object(vec![("a", JsonValue::UInt(7)), ("b", JsonValue::Int(9))]);
    let record = decode(&shape, value).unwrap();
    assert_eq!(record.get_i64(&"a".to_string()), Some(7));
    assert_eq!(record.get_u64(&"b".to_string()), Some(9));
}

#[test]
fn record_accessors_by_name() {
    let record = Record {
        entries: vec![
            ("on".to_string(), JsonValue::Bool(true)),
            ("n".to_string(), JsonValue::Int(-3)),
        ],
    };
    assert_eq!(record.get_bool(&"on".to_string()), Some(true));
    assert_eq!(record.get_i64(&"n".to_string()), Some(-3));
    assert_eq!(record.get_u64(&"n".to_string()), None);
    assert_eq!(record.get_text(&"on".to_string()), None);
    assert!(record.get(&"off".to_string()).is_none());
}

#[test]
fn secured_modes() {
    assert!(is_secured_mode(0o600));
    assert!(is_secured_mode(0o400));
    assert!(is_secured_mode(0o200));
    assert!(is_secured_mode(0));
    assert!(!is_secured_mode(0o700));
    assert!(!is_secured_mode(0o640));
    assert!(!is_secured_mode(0o644));
    assert!(!is_secured_mode(0o604));
    assert!(!is_secured_mode(0o610));
    assert!(!is_secured_mode(0o601));
}

#[test]
fn describe_each_kind() {
    assert_eq!(Error::NotFound.describe(), "NotFound");
    assert_eq!(
        Error::Io("a.json".to_string(), "disk error".to_string()).describe(),
        "I/O: disk error; file=a.json"
    );
    assert_eq!(
        Error::Insecured("a.json".to_string(), 0o640).describe(),
        "Insecured. permission=640; file=a.json"
    );
    assert_eq!(
        Error::Insecured("a.json".to_string(), 0).describe(),
        "Insecured. permission=0; file=a.json"
    );
    assert_eq!(
        Error::Deserialization("a.json".to_string(), "unknown field".to_string()).describe(),
        "Deserialization: unknown field; file=a.json"
    );
}
