use notabot::adaptive::parameters::{ParameterError, ParameterStore, ParameterValue, ConstraintViolation};
use notabot::adaptive::safety::SafetyManager;
use notabot::adaptive::tuning_engine::{apply_changes_safely_at, tuning_allowed_at, ChangeRequest, RejectionReason};

fn request(name: &str, value: ParameterValue) -> ChangeRequest {
    ChangeRequest { parameter_name: name.to_string(), suggested_value: value, reason: format!("tune {}", name) }
}

#[test]
fn a_round_applies_what_both_checks_accept() {
    let mut store = ParameterStore::new();
    let safety = SafetyManager::new(true, 10, 300);
    let requests = vec![
        request("connection_timeout_ms", ParameterValue::Duration(45000)),
        request("worker_thread_count", ParameterValue::Integer(64)),
        request("no_such_parameter", ParameterValue::Integer(1)),
        request("connection_retry_attempts", ParameterValue::Integer(50)),
    ];
    let (applied, rejected) = apply_changes_safely_at(&mut store, &safety, &requests, 1_700_000_000_000, 4);

    assert_eq!(applied.len(), 1);
    assert_eq!(applied[0].parameter_name, "connection_timeout_ms");
    assert_eq!(applied[0].old_value, ParameterValue::Duration(30000));
    assert_eq!(applied[0].new_value, ParameterValue::Duration(45000));
    assert_eq!(applied[0].reason, "tune connection_timeout_ms");
    assert_eq!(applied[0].triggered_by, "tuning_engine");
    assert_eq!(applied[0].timestamp, 1_700_000_000);
    assert_eq!(store.get_parameter("connection_timeout_ms"), Some(&ParameterValue::Duration(45000)));

    assert_eq!(rejected.len(), 3);
    assert_eq!(rejected[0].parameter_name, "worker_thread_count");
    assert_eq!(rejected[0].reason, RejectionReason::SafetyManager);
    assert_eq!(rejected[1].reason, RejectionReason::Invalid(ParameterError::NotFound));
    assert_eq!(rejected[2].reason, RejectionReason::Invalid(ParameterError::Invalid(ConstraintViolation::OutOfRange)));
    assert!(rejected.iter().all(|r| r.suggested_by == "tuning_engine"));
    assert_eq!(store.get_parameter("worker_thread_count"), Some(&ParameterValue::Integer(4)));
    assert_eq!(store.get_change_history(None).len(), 1);
}

#[test]
fn a_disabled_safety_manager_leaves_the_store_to_decide() {
    let mut store = ParameterStore::new();
    let safety = SafetyManager::new(false, 10, 300);
    let requests = vec![request("worker_thread_count", ParameterValue::Integer(12))];
    let (applied, rejected) = apply_changes_safely_at(&mut store, &safety, &requests, 5_000, 1);
    assert_eq!(applied.len(), 1);
    assert!(rejected.is_empty());
    assert_eq!(store.get_parameter("worker_thread_count"), Some(&ParameterValue::Integer(12)));
}

#[test]
fn tuning_is_allowed_by_frequency_and_refused_for_unknown_names() {
    let mut store = ParameterStore::new();
    assert!(store.set_parameter_at("connection_pool_max_size", ParameterValue::Integer(5), 90_000).is_ok());
    let names = vec!["connection_timeout_ms".to_string(), "connection_pool_max_size".to_string(), "learning_rate".to_string()];
    assert_eq!(tuning_allowed_at(&store, &names, 90_100), Ok(vec![true, false, true]));
    assert_eq!(tuning_allowed_at(&store, &names, 93_601), Ok(vec![true, true, true]));
    let with_unknown = vec!["connection_timeout_ms".to_string(), "nope".to_string()];
    assert_eq!(tuning_allowed_at(&store, &with_unknown, 90_100), Err(ParameterError::NotFound));
}
