use a2a_rs::domain::{Task, TaskState};
use a2a_rs::invariants::dsl::{parse_invariant, task_to_json, ComparisonOp, Expr, LiteralValue};
use a2a_rs::invariants::{Invariant, InvariantViolation};
use a2a_rs::json::JsonValue;

fn obj(members: Vec<(&str, JsonValue)>) -> JsonValue {
    JsonValue::Object(members.into_iter().map(|(k, v)| (k.to_string(), v)).collect())
}

fn num(n: &str) -> JsonValue {
    JsonValue::Number(n.to_string())
}

#[test]
fn test_parse_simple_comparison() {
    let expr = parse_invariant("INVARIANT task.artifacts.length <= 100").unwrap();
    assert!(matches!(expr.expr, Expr::Comparison { .. }));
}

#[test]
fn test_parse_logical_and() {
    let expr = parse_invariant("INVARIANT x > 0 AND x < 100").unwrap();
    assert!(matches!(expr.expr, Expr::And(_, _)));
}

#[test]
fn test_parse_logical_or() {
    let expr = parse_invariant("INVARIANT x == 1 OR x == 2").unwrap();
    assert!(matches!(expr.expr, Expr::Or(_, _)));
}

#[test]
fn test_parse_not() {
    let expr = parse_invariant("INVARIANT NOT x == 0").unwrap();
    assert!(matches!(expr.expr, Expr::Not(_)));
}

#[test]
fn test_parse_parentheses() {
    let expr = parse_invariant("INVARIANT (x > 0 AND x < 10) OR x == 100").unwrap();
    assert!(matches!(expr.expr, Expr::Or(_, _)));
}

#[test]
fn test_eval_field_access() {
    let task = Task::new("task-1".to_string(), "ctx-1".to_string());
    let expr = parse_invariant("INVARIANT id == \"task-1\"").unwrap();
    assert!(expr.evaluate(&task).is_ok());
}

#[test]
fn test_eval_array_length() {
    let mut task = Task::new("task-1".to_string(), "ctx-1".to_string());
    task.artifacts = Some(vec![]);
    let expr = parse_invariant("INVARIANT artifacts.length <= 100").unwrap();
    assert!(expr.evaluate(&task).is_ok());
    let expr = parse_invariant("INVARIANT artifacts.length > 100").unwrap();
    assert!(expr.evaluate(&task).is_err());
}

#[test]
fn test_eval_comparison_operators() {
    let json = obj(vec![("x", num("42"))]);
    let test_cases = vec![
        ("INVARIANT x == 42", true),
        ("INVARIANT x != 42", false),
        ("INVARIANT x < 50", true),
        ("INVARIANT x <= 42", true),
        ("INVARIANT x > 40", true),
        ("INVARIANT x >= 42", true),
    ];
    for (invariant_str, expected) in test_cases {
        let expr = parse_invariant(invariant_str).unwrap();
        let result = expr.evaluate_json(&json);
        assert_eq!(result.is_ok(), expected, "Failed for: {}", invariant_str);
    }
}

#[test]
fn test_eval_logical_operators() {
    let json = obj(vec![("x", num("42")), ("y", num("10"))]);
    let test_cases = vec![
        ("INVARIANT x > 0 AND y > 0", true),
        ("INVARIANT x > 0 AND y > 20", false),
        ("INVARIANT x > 0 OR y > 20", true),
        ("INVARIANT x < 0 OR y < 0", false),
        ("INVARIANT NOT x < 0", true),
        ("INVARIANT NOT x > 0", false),
    ];
    for (invariant_str, expected) in test_cases {
        let expr = parse_invariant(invariant_str).unwrap();
        let result = expr.evaluate_json(&json);
        assert_eq!(result.is_ok(), expected, "Failed for: {}", invariant_str);
    }
}

#[test]
fn test_eval_string_comparison() {
    let json = obj(vec![("state", JsonValue::String("completed".to_string()))]);
    let expr = parse_invariant("INVARIANT state == \"completed\"").unwrap();
    assert!(expr.evaluate_json(&json).is_ok());
    let expr = parse_invariant("INVARIANT state == \"failed\"").unwrap();
    assert!(expr.evaluate_json(&json).is_err());
}

#[test]
fn test_complex_invariant() {
    let mut task = Task::new("task-1".to_string(), "ctx-1".to_string());
    task.update_status(TaskState::Completed, None);
    let expr = parse_invariant(
        "INVARIANT (status.state == \"completed\" OR status.state == \"failed\") AND id == \"task-1\"",
    )
    .unwrap();
    let json = task_to_json(&task);
    assert!(expr.evaluate_json(&json).is_ok());
}

#[test]
fn test_invariant_trait_impl() {
    let task = Task::new("task-1".to_string(), "ctx-1".to_string());
    let expr = parse_invariant("INVARIANT id == \"task-1\"").unwrap();
    let invariant: &dyn Invariant<Task> = &expr;
    assert!(invariant.check(&task).is_ok());
    assert_eq!(invariant.name(), "dsl_invariant");
}

#[test]
fn parse_errors_and_trailing_input() {
    assert!(parse_invariant("x > 0").unwrap_err().starts_with("Parse error: "));
    assert!(parse_invariant("INVARIANT").is_err());
    let err = parse_invariant("INVARIANT x > 0 )").unwrap_err();
    assert_eq!(err, "Unexpected input after invariant: )");
    assert!(parse_invariant("invariant x == -5   ").is_ok());
}

#[test]
fn parsed_shapes() {
    let e = parse_invariant("INVARIANT a.b.c >= -12").unwrap();
    match e.expr {
        Expr::Comparison { left, op, right } => {
            assert!(matches!(*left, Expr::FieldAccess(ref p) if p.len() == 3 && p[2] == "c"));
            assert_eq!(op, ComparisonOp::GreaterThanOrEqual);
            assert!(matches!(*right, Expr::Literal(LiteralValue::Number(-12))));
        }
        _ => panic!("not a comparison"),
    }
    // Keywords are matched without regard to case; the first OR operand groups the ANDs.
    let e = parse_invariant("INVARIANT a and b OR c").unwrap();
    assert!(matches!(e.expr, Expr::Or(ref l, _) if matches!(**l, Expr::And(_, _))));
    let e = parse_invariant("INVARIANT s == \"\"").unwrap();
    assert!(matches!(e.expr, Expr::Comparison { ref right, .. } if matches!(**right, Expr::Literal(LiteralValue::String(ref s)) if s.is_empty())));
}

#[test]
fn evaluation_errors_are_reported() {
    let json = obj(vec![("x", JsonValue::Bool(true)), ("n", JsonValue::Null)]);
    let e = parse_invariant("INVARIANT x AND 1").unwrap();
    match e.evaluate_json(&json).unwrap_err() {
        InvariantViolation::Custom { name, reason } => {
            assert_eq!(name, "dsl_invariant");
            assert_eq!(reason, "Evaluation error: AND requires boolean operands");
        }
        other => panic!("unexpected {:?}", other),
    }
    let e = parse_invariant("INVARIANT x < true").unwrap();
    let r = e.evaluate_json(&json).unwrap_err();
    assert!(matches!(r, InvariantViolation::Custom { ref reason, .. } if reason == "Evaluation error: Cannot compare Boolean(true) and Null with <"));
    let e = parse_invariant("INVARIANT x < x").unwrap();
    let r = e.evaluate_json(&json).unwrap_err();
    assert!(matches!(r, InvariantViolation::Custom { ref reason, .. } if reason == "Evaluation error: Operator < not supported for booleans"));
    // A missing field is null; `exists` tells it apart.
    let e = parse_invariant("INVARIANT NOT missing.exists AND n.anything == n").unwrap();
    assert!(e.evaluate_json(&json).is_err());
    let e = parse_invariant("INVARIANT NOT missing.exists").unwrap();
    assert!(e.evaluate_json(&json).is_ok());
    // `true` in term position is a field name, so this compares with null.
    let e = parse_invariant("INVARIANT x == true").unwrap();
    assert!(e.evaluate_json(&json).is_err());
    let e = parse_invariant("INVARIANT x").unwrap();
    assert!(e.evaluate_json(&json).is_ok());
    let e = parse_invariant("INVARIANT 3").unwrap();
    assert!(e.evaluate_json(&json).is_err());
}

#[test]
fn out_of_range_literal_is_a_parse_error() {
    match parse_invariant("INVARIANT x > 99999999999999999999") {
        Err(m) => assert_eq!(m, "Parse error: number out of range"),
        Ok(_) => panic!("accepted"),
    }
    assert!(parse_invariant("INVARIANT x > -9223372036854775808").is_ok());
}
