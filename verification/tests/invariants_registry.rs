use a2a_rs::invariants::{Invariant, InvariantRegistry, InvariantResult, InvariantViolation, ViolationView};

struct AlwaysPass;
impl Invariant<i32> for AlwaysPass {
    fn verdict(&self, _value: i32) -> Result<(), ViolationView> {
        unreachable!()
    }
    fn check(&self, _value: &i32) -> InvariantResult {
        Ok(())
    }
    fn name(&self) -> &str {
        "always_pass"
    }
}

struct AlwaysFail;
impl Invariant<i32> for AlwaysFail {
    fn verdict(&self, _value: i32) -> Result<(), ViolationView> {
        unreachable!()
    }
    fn check(&self, _value: &i32) -> InvariantResult {
        Err(InvariantViolation::Custom {
            name: "always_fail".to_string(),
            reason: "This invariant always fails".to_string(),
        })
    }
    fn name(&self) -> &str {
        "always_fail"
    }
}

struct MustBePositive;
impl Invariant<i32> for MustBePositive {
    fn verdict(&self, _value: i32) -> Result<(), ViolationView> {
        unreachable!()
    }
    fn check(&self, value: &i32) -> InvariantResult {
        if *value > 0 {
            Ok(())
        } else {
            Err(InvariantViolation::Custom {
                name: "must_be_positive".to_string(),
                reason: format!("Value {} is not positive", value),
            })
        }
    }
    fn name(&self) -> &str {
        "must_be_positive"
    }
}

#[test]
fn test_empty_registry() {
    let registry = InvariantRegistry::<i32>::new();
    assert_eq!(registry.len(), 0);
    assert!(registry.is_empty());
    assert!(registry.check_all(&42).is_ok());
}

#[test]
fn test_single_passing_invariant() {
    let mut registry = InvariantRegistry::new();
    registry.register("pass", Box::new(AlwaysPass));

    assert_eq!(registry.len(), 1);
    assert!(registry.check_all(&42).is_ok());
}

#[test]
fn test_single_failing_invariant() {
    let mut registry = InvariantRegistry::new();
    registry.register("fail", Box::new(AlwaysFail));

    let result = registry.check_all(&42);
    assert!(result.is_err());
    assert!(matches!(result.unwrap_err(), InvariantViolation::Custom { .. }));
}

#[test]
fn test_multiple_invariants_all_pass() {
    let mut registry = InvariantRegistry::new();
    registry.register("pass1", Box::new(AlwaysPass));
    registry.register("pass2", Box::new(AlwaysPass));
    registry.register("positive", Box::new(MustBePositive));

    assert!(registry.check_all(&42).is_ok());
}

#[test]
fn test_multiple_invariants_one_fails() {
    let mut registry = InvariantRegistry::new();
    registry.register("pass", Box::new(AlwaysPass));
    registry.register("positive", Box::new(MustBePositive));

    let result = registry.check_all(&-5);
    assert!(result.is_err());
}

#[test]
fn test_multiple_invariants_multiple_fail() {
    let mut registry = InvariantRegistry::new();
    registry.register("fail1", Box::new(AlwaysFail));
    registry.register("positive", Box::new(MustBePositive));

    let result = registry.check_all(&-5);
    assert!(result.is_err());
    assert!(matches!(result.unwrap_err(), InvariantViolation::Multiple { .. }));
}

#[test]
fn test_check_all_collect() {
    let mut registry = InvariantRegistry::new();
    registry.register("fail1", Box::new(AlwaysFail));
    registry.register("positive", Box::new(MustBePositive));

    let violations = registry.check_all_collect(&-5);
    assert_eq!(violations.len(), 2);
}

#[test]
fn test_unregister() {
    let mut registry = InvariantRegistry::new();
    registry.register("fail", Box::new(AlwaysFail));
    assert_eq!(registry.len(), 1);

    assert!(registry.unregister("fail"));
    assert_eq!(registry.len(), 0);
    assert!(registry.check_all(&42).is_ok());

    assert!(!registry.unregister("nonexistent"));
}

#[test]
fn test_deterministic_order() {
    let mut registry = InvariantRegistry::new();
    registry.register("z_last", Box::new(AlwaysPass));
    registry.register("a_first", Box::new(AlwaysPass));
    registry.register("m_middle", Box::new(AlwaysPass));

    let keys = registry.keys();
    assert_eq!(keys, vec!["a_first", "m_middle", "z_last"]);
}

#[test]
fn test_replace_invariant() {
    let mut registry = InvariantRegistry::new();
    registry.register("test", Box::new(AlwaysPass));
    assert!(registry.check_all(&-5).is_ok());

    registry.register("test", Box::new(MustBePositive));
    assert!(registry.check_all(&-5).is_err());
}

#[test]
fn registry_collect_reports_violations_in_key_order() {
    let mut registry = InvariantRegistry::new();
    registry.register("b_positive", Box::new(MustBePositive));
    registry.register("a_fail", Box::new(AlwaysFail));
    let violations = registry.check_all_collect(&-1);
    assert_eq!(violations.len(), 2);
    match &violations[0] {
        InvariantViolation::Custom { name, .. } => assert_eq!(name, "always_fail"),
        _ => panic!("unexpected violation"),
    }
    match &violations[1] {
        InvariantViolation::Custom { name, .. } => assert_eq!(name, "must_be_positive"),
        _ => panic!("unexpected violation"),
    }
}

#[test]
fn registry_default_description() {
    assert_eq!(AlwaysPass.description(), "No description provided");
}
