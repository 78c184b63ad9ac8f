use a2a_rs::guards::dsl::{parse_guard, parse_guards, DslError, GuardRule};

fn s(x: &str) -> String {
    x.to_string()
}

#[test]
fn type_rule_is_parsed_in_either_case() {
    assert_eq!(
        parse_guard("REQUIRE task.name TYPE string").unwrap(),
        GuardRule::TypeCheck { path: s("task.name"), expected_type: s("string") }
    );
    assert_eq!(
        parse_guard("require TASK.NAME type STRING").unwrap(),
        GuardRule::TypeCheck { path: s("TASK.NAME"), expected_type: s("string") }
    );
    assert_eq!(
        parse_guard("REQUIRE task.metadata.priority TYPE number").unwrap(),
        GuardRule::TypeCheck { path: s("task.metadata.priority"), expected_type: s("number") }
    );
}

#[test]
fn enum_rule_lists_its_values() {
    assert_eq!(
        parse_guard("REQUIRE task.status IN [submitted, working, completed]").unwrap(),
        GuardRule::EnumCheck {
            path: s("task.status"),
            allowed_values: vec![s("submitted"), s("working"), s("completed")],
        }
    );
}

#[test]
fn range_rules_keep_their_bounds() {
    assert_eq!(
        parse_guard("REQUIRE amount RANGE 0..100").unwrap(),
        GuardRule::RangeCheck { path: s("amount"), min: Some(s("0")), max: Some(s("100")) }
    );
    assert_eq!(
        parse_guard("REQUIRE age RANGE 18..").unwrap(),
        GuardRule::RangeCheck { path: s("age"), min: Some(s("18")), max: None }
    );
    assert_eq!(
        parse_guard("REQUIRE age RANGE ..65").unwrap(),
        GuardRule::RangeCheck { path: s("age"), min: None, max: Some(s("65")) }
    );
    assert_eq!(
        parse_guard("REQUIRE t RANGE -1.5..2e3").unwrap(),
        GuardRule::RangeCheck { path: s("t"), min: Some(s("-1.5")), max: Some(s("2e3")) }
    );
    assert_eq!(
        parse_guard("REQUIRE name LENGTH 3..50").unwrap(),
        GuardRule::StringLengthCheck { path: s("name"), min_length: Some(s("3")), max_length: Some(s("50")) }
    );
}

#[test]
fn field_and_transition_rules() {
    assert_eq!(parse_guard("REQUIRE FIELD status").unwrap(), GuardRule::RequiredField { field_name: s("status") });
    assert_eq!(
        parse_guard("ALLOW TRANSITION draft -> published").unwrap(),
        GuardRule::StateTransition { from: s("draft"), to: s("published") }
    );
}

#[test]
fn test_invalid_syntax() {
    let result = parse_guard("INVALID SYNTAX HERE");
    assert!(result.is_err());
}

#[test]
fn test_trailing_input() {
    let result = parse_guard("REQUIRE name TYPE string extra stuff");
    assert!(result.is_err());
    if let Err(DslError::InvalidSyntax(msg)) = result {
        assert!(msg.contains("trailing"));
    } else {
        panic!("Expected InvalidSyntax error");
    }
}

#[test]
fn test_parse_multiple_guards() {
    let rules = r#"
        # Task validation rules
        REQUIRE task.status IN [submitted, working, completed]
        REQUIRE task.name TYPE string
        REQUIRE task.priority RANGE 1..10
        "#;

    let guards = parse_guards(rules).unwrap();
    assert_eq!(guards.len(), 3);
}

#[test]
fn bad_rules_are_refused() {
    match parse_guard("INVALID SYNTAX HERE") {
        Err(DslError::ParseError(m)) => {
            assert_eq!(m, "Failed to parse guard rule: Error(Error { input: \"INVALID SYNTAX HERE\", code: Tag })")
        },
        other => panic!("unexpected {:?}", other),
    }
    match parse_guard("REQUIRE name TYPE string extra stuff") {
        Err(DslError::InvalidSyntax(m)) => {
            assert!(m.contains("trailing"));
            assert_eq!(m, "Unexpected trailing input: 'extra stuff'");
        },
        other => panic!("unexpected {:?}", other),
    }
}

#[test]
fn rules_are_read_line_by_line() {
    assert_eq!(parse_guards("REQUIRE FIELD a\r\n\r\n# note\nALLOW TRANSITION a -> b").unwrap().len(), 2);
    match parse_guards("REQUIRE FIELD a\nnonsense") {
        Err(DslError::ParseError(m)) => assert!(m.starts_with("Line 2: Parse error: Failed to parse guard rule")),
        other => panic!("unexpected {:?}", other),
    }
}
