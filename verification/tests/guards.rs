use a2a_rs::guards::{
    compute_input_hash, Guard, RefusalCode, RefusalReceipt, RequiredFieldGuard, StateTransitionGuard,
    StringLengthGuard, TypeGuard,
};
use a2a_rs::json::{to_json_string, JsonValue};
use a2a_rs::strmap::StrMap;

fn s(v: &str) -> JsonValue {
    JsonValue::String(v.to_string())
}

fn n(v: &str) -> JsonValue {
    JsonValue::Number(v.to_string())
}

fn obj(members: Vec<(&str, JsonValue)>) -> JsonValue {
    JsonValue::Object(members.into_iter().map(|(k, v)| (k.to_string(), v)).collect())
}

#[test]
fn test_type_guard_string() {
    let guard = TypeGuard::new("string".to_string());
    let valid = s("hello");
    let invalid = n("42");
    assert!(guard.check(&valid, "test", 1).is_ok());
    let err = guard.check(&invalid, "test", 1).unwrap_err();
    assert_eq!(err.code, RefusalCode::TypeMismatch);
}

#[test]
fn test_type_guard_number() {
    let guard = TypeGuard::new("number".to_string());
    let valid = n("42");
    let invalid = s("hello");
    assert!(guard.check(&valid, "test", 1).is_ok());
    let err = guard.check(&invalid, "test", 1).unwrap_err();
    assert_eq!(err.code, RefusalCode::TypeMismatch);
}

#[test]
fn test_required_field_guard() {
    let guard = RequiredFieldGuard::new("name".to_string());
    let valid = obj(vec![("name", s("Alice"))]);
    let invalid = obj(vec![("age", n("30"))]);
    assert!(guard.check(&valid, "test", 1).is_ok());
    let err = guard.check(&invalid, "test", 1).unwrap_err();
    assert_eq!(err.code, RefusalCode::MissingRequiredField);
}

#[test]
fn test_string_length_guard() {
    let guard = StringLengthGuard::new(Some(3), Some(10));
    assert!(guard.check(&s("hello"), "test", 1).is_ok());
    assert!(guard.check(&s("abc"), "test", 1).is_ok());
    let err = guard.check(&s("ab"), "test", 1).unwrap_err();
    assert_eq!(err.code, RefusalCode::InvalidStringLength);
    let err = guard.check(&s("this is too long"), "test", 1).unwrap_err();
    assert_eq!(err.code, RefusalCode::InvalidStringLength);
}

#[test]
fn test_state_transition_guard() {
    let mut valid_transitions = StrMap::new();
    valid_transitions.insert("draft".to_string(), vec!["published".to_string()]);
    valid_transitions.insert("published".to_string(), vec!["archived".to_string(), "draft".to_string()]);
    let guard = StateTransitionGuard::new(valid_transitions);

    let valid = obj(vec![("from", s("draft")), ("to", s("published"))]);
    assert!(guard.check(&valid, "test", 1).is_ok());

    let invalid = obj(vec![("from", s("draft")), ("to", s("archived"))]);
    let err = guard.check(&invalid, "test", 1).unwrap_err();
    assert_eq!(err.code, RefusalCode::InvalidStateTransition);
    assert_eq!(err.reason, "Invalid transition from 'draft' to 'archived'. Allowed: [\"published\"]");
}

#[test]
fn test_refusal_receipt_display() {
    let receipt = RefusalReceipt::new(
        RefusalCode::TypeMismatch,
        "TestGuard".to_string(),
        "hash123".to_string(),
        1,
        "Expected string, got number".to_string(),
    );
    let display = receipt.to_display_string();
    assert!(display.contains("TYPE_MISMATCH"));
    assert!(display.contains("TestGuard"));
    assert!(display.contains("hash123"));
    assert_eq!(display, "[TYPE_MISMATCH] Expected string, got number (guard: TestGuard, epoch: 1, input: hash123)");
}

#[test]
fn test_refusal_receipt_metadata() {
    let metadata = vec![("field".to_string(), s("name"))];
    let receipt = RefusalReceipt::with_metadata(
        RefusalCode::MissingRequiredField,
        "TestGuard".to_string(),
        "hash123".to_string(),
        1,
        "Field missing".to_string(),
        metadata,
    );
    assert!(receipt.metadata.is_some());
    let m = receipt.metadata.as_ref().unwrap();
    assert!(matches!(&m[0], (k, JsonValue::String(v)) if k == "field" && v == "name"));
}

#[test]
fn type_refusal_carries_details() {
    let guard = TypeGuard::new("object".to_string());
    let err = guard.check(&JsonValue::Array(vec![]), "ctx", 7).unwrap_err();
    assert_eq!(err.violated_guard, "TypeGuard(object)");
    assert_eq!(err.reason, "Expected type 'object', got 'array'");
    assert_eq!(err.policy_epoch, 7);
    assert_eq!(err.input_hash, compute_input_hash(&JsonValue::Array(vec![])));
    let m = err.metadata.unwrap();
    assert_eq!(m.len(), 3);
    assert_eq!(m[2].0, "context");
}

#[test]
fn length_guard_messages_and_non_strings() {
    let guard = StringLengthGuard::new(Some(3), None);
    let err = guard.check(&s("ab"), "c", 1).unwrap_err();
    assert_eq!(err.reason, "String length 2 is less than minimum 3");
    let err = guard.check(&JsonValue::Null, "c", 1).unwrap_err();
    assert_eq!(err.code, RefusalCode::TypeMismatch);
    assert_eq!(err.reason, "Value is not a string");
    // Length counts UTF-8 bytes.
    let guard = StringLengthGuard::new(None, Some(3));
    assert!(guard.check(&s("\u{e9}\u{e9}"), "c", 1).unwrap_err().reason.contains("greater than maximum 3"));
    assert_eq!(guard.description(), "String length must be <= 3");
}

#[test]
fn transition_guard_missing_fields_and_unknown_state() {
    let mut t = StrMap::new();
    t.insert("a".to_string(), vec!["b".to_string()]);
    let guard = StateTransitionGuard::new(t);
    let err = guard.check(&s("x"), "c", 1).unwrap_err();
    assert_eq!(err.code, RefusalCode::TypeMismatch);
    let err = guard.check(&obj(vec![("to", s("b"))]), "c", 1).unwrap_err();
    assert_eq!(err.reason, "Missing 'from' state field");
    let err = guard.check(&obj(vec![("from", s("a"))]), "c", 1).unwrap_err();
    assert_eq!(err.reason, "Missing 'to' state field");
    let err = guard.check(&obj(vec![("from", s("z")), ("to", s("b"))]), "c", 1).unwrap_err();
    assert_eq!(err.reason, "Unknown state 'z'");
    assert_eq!(guard.description(), "State machine with 1 states and 1 transitions");
}

#[test]
fn json_text_matches_serde_json() {
    let v = obj(vec![
        ("a", JsonValue::Array(vec![n("1"), JsonValue::Bool(true), JsonValue::Null])),
        ("b", s("q\"\\\n\t\u{1}x")),
    ]);
    let mut map = serde_json::Map::new();
    map.insert(
        "a".to_string(),
        serde_json::Value::Array(vec![
            serde_json::Value::from(1),
            serde_json::Value::Bool(true),
            serde_json::Value::Null,
        ]),
    );
    map.insert("b".to_string(), serde_json::Value::String("q\"\\\n\t\u{1}x".to_string()));
    let expected = serde_json::to_string(&serde_json::Value::Object(map)).unwrap();
    assert_eq!(to_json_string(&v), expected);
    assert!(compute_input_hash(&v).starts_with("hash-"));
}

#[test]
fn add_metadata_replaces_same_key() {
    let r = RefusalReceipt::new(RefusalCode::QuotaExhausted, "g".to_string(), "h".to_string(), 2, "r".to_string());
    let r = r.add_metadata("k".to_string(), s("1")).add_metadata("j".to_string(), s("2")).add_metadata("k".to_string(), s("3"));
    let m = r.metadata.unwrap();
    assert_eq!(m.len(), 2);
    assert!(matches!(&m[0], (k, JsonValue::String(v)) if k == "k" && v == "3"));
    assert_eq!(RefusalCode::QuotaExhausted.as_str(), "QUOTA_EXHAUSTED");
}
