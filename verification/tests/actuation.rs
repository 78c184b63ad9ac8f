use a2a_rs::runtime::actuation::{ActuationError, BoundedActuator, StateUpdate, UpdateBatch, UpdateLimit};

#[derive(Clone, Debug, PartialEq)]
struct Counter {
    value: i32,
}

#[derive(Clone, Debug)]
enum CounterUpdate {
    Increment,
    Decrement,
    Assign(i32),
}

impl StateUpdate<Counter> for CounterUpdate {
    fn outcome(&self, _state: Counter) -> Option<Counter> {
        unreachable!()
    }

    fn apply(&self, state: &mut Counter) -> Result<(), String> {
        match self {
            CounterUpdate::Increment => {
                state.value = state.value.checked_add(1).ok_or_else(|| "overflow".to_string())?;
            }
            CounterUpdate::Decrement => {
                state.value = state.value.checked_sub(1).ok_or_else(|| "underflow".to_string())?;
            }
            CounterUpdate::Assign(v) => {
                state.value = *v;
            }
        }
        Ok(())
    }

    fn description(&self) -> String {
        match self {
            CounterUpdate::Increment => "increment".to_string(),
            CounterUpdate::Decrement => "decrement".to_string(),
            CounterUpdate::Assign(v) => format!("set to {}", v),
        }
    }
}

#[test]
fn test_basic_actuation() {
    let mut actuator = BoundedActuator::new(Counter { value: 0 }, UpdateLimit::default());
    actuator.stage_update(CounterUpdate::Increment).unwrap();
    actuator.stage_update(CounterUpdate::Increment).unwrap();
    let receipt = actuator.commit(None).unwrap();
    assert_eq!(receipt.updates_applied, 2);
    assert_eq!(actuator.state().value, 2);
    assert_eq!(actuator.staged_count(), 0);
}

#[test]
fn test_update_limit() {
    let mut actuator = BoundedActuator::new(Counter { value: 0 }, UpdateLimit::new(2));
    actuator.stage_update(CounterUpdate::Increment).unwrap();
    actuator.stage_update(CounterUpdate::Increment).unwrap();
    let result = actuator.stage_update(CounterUpdate::Increment);
    assert!(matches!(result, Err(ActuationError::UpdateLimitExceeded { .. })));
}

#[test]
fn test_rollback_on_update_failure() {
    let mut actuator = BoundedActuator::new(Counter { value: i32::MAX }, UpdateLimit::default());
    actuator.stage_update(CounterUpdate::Increment).unwrap();
    let result = actuator.commit(None);
    assert!(matches!(result, Err(ActuationError::UpdateFailed { .. })));
    assert_eq!(actuator.state().value, i32::MAX);
}

#[test]
fn test_invariant_violation() {
    let actuator = BoundedActuator::new(Counter { value: 0 }, UpdateLimit::default()).with_invariant(|s: &Counter| {
        if s.value < 0 {
            Err("value must be non-negative".to_string())
        } else {
            Ok(())
        }
    });
    let mut actuator = actuator;
    actuator.stage_update(CounterUpdate::Decrement).unwrap();
    let result = actuator.commit(None);
    assert!(matches!(result, Err(ActuationError::InvariantViolation { .. })));
    assert_eq!(actuator.state().value, 0);
}

#[test]
fn test_batch_operations() {
    let mut actuator = BoundedActuator::new(Counter { value: 0 }, UpdateLimit::default());
    let updates =
        vec![CounterUpdate::Increment, CounterUpdate::Increment, CounterUpdate::Assign(10), CounterUpdate::Decrement];
    actuator.stage_updates(updates).unwrap();
    let receipt = actuator.commit(Some("batch test".to_string())).unwrap();
    assert_eq!(receipt.updates_applied, 4);
    assert_eq!(receipt.context, Some("batch test".to_string()));
    assert_eq!(actuator.state().value, 9);
}

#[test]
fn test_try_commit() {
    let mut actuator = BoundedActuator::new(Counter { value: i32::MAX }, UpdateLimit::default());
    actuator.stage_update(CounterUpdate::Increment).unwrap();
    let result = actuator.try_commit(None);
    assert!(result.is_err());
    if let Err(receipt) = result {
        assert!(receipt.rolled_back);
        assert!(receipt.error.is_some());
    }
}

#[test]
fn test_clear_staged() {
    let mut actuator = BoundedActuator::new(Counter { value: 0 }, UpdateLimit::default());
    actuator.stage_update(CounterUpdate::Increment).unwrap();
    assert_eq!(actuator.staged_count(), 1);
    actuator.clear_staged();
    assert_eq!(actuator.staged_count(), 0);
    let result = actuator.commit(None);
    assert!(matches!(result, Err(ActuationError::NoUpdatesStaged)));
}

#[test]
fn test_receipt_audit_trail() {
    let mut actuator = BoundedActuator::new(Counter { value: 0 }, UpdateLimit::default());
    actuator.stage_update(CounterUpdate::Increment).unwrap();
    actuator.commit(Some("first".to_string())).unwrap();
    actuator.stage_update(CounterUpdate::Assign(5)).unwrap();
    actuator.commit(Some("second".to_string())).unwrap();
    let receipts = actuator.receipts();
    assert_eq!(receipts.len(), 2);
    assert_eq!(receipts[0].context, Some("first".to_string()));
    assert_eq!(receipts[1].context, Some("second".to_string()));
    assert_eq!(actuator.total_updates_committed(), 2);
}

#[test]
fn actuation_error_texts() {
    let e = ActuationError::UpdateLimitExceeded { actual: 3, limit: 2 };
    assert_eq!(e.message(), "Update batch size 3 exceeds limit 2");
    assert_eq!(ActuationError::NoUpdatesStaged.message(), "No updates staged for commit");
    let e = ActuationError::UpdateFailed { message: "overflow".to_string() };
    assert_eq!(e.message(), "Update failed: overflow");
}

#[test]
fn actuation_try_commit_records_the_failure() {
    let mut actuator = BoundedActuator::new(Counter { value: i32::MAX }, UpdateLimit::default());
    actuator.stage_update(CounterUpdate::Increment).unwrap();
    let receipt = actuator.try_commit(Some("ctx".to_string())).unwrap_err();
    assert_eq!(receipt.error, Some("Update failed: overflow".to_string()));
    assert_eq!(receipt.updates_applied, 0);
    assert_eq!(receipt.update_descriptions, vec!["increment".to_string()]);
    assert_eq!(receipt.context, Some("ctx".to_string()));
    assert_eq!(actuator.staged_count(), 0);
    assert_eq!(actuator.receipts().len(), 1);
}

#[test]
fn actuation_batch_limits_and_context() {
    let mut actuator = BoundedActuator::new(Counter { value: 0 }, UpdateLimit::strict());
    let result = actuator.stage_updates(vec![CounterUpdate::Increment, CounterUpdate::Increment]);
    match result {
        Err(ActuationError::UpdateLimitExceeded { actual, limit }) => {
            assert_eq!(actual, 2);
            assert_eq!(limit, 1);
        }
        _ => panic!("expected a limit error"),
    }
    assert_eq!(actuator.staged_count(), 0);
    assert_eq!(actuator.limits().max_updates_per_batch, 1);
    assert_eq!(UpdateLimit::unlimited().max_updates_per_batch, usize::MAX);
    actuator.reset_state(Counter { value: 7 });
    assert_eq!(actuator.state().value, 7);

    let mut batch: UpdateBatch<CounterUpdate> = UpdateBatch::new();
    assert!(batch.is_empty());
    batch.add(CounterUpdate::Increment);
    let batch = batch.with_context("why".to_string());
    assert_eq!(batch.len(), 1);
    assert_eq!(batch.context(), Some("why"));
}
