use notabot::adaptive::parameters::ParameterValue;
use notabot::adaptive::safety::{CircuitBreaker, CircuitBreakerState, SafetyManager, ValueRangeRule};

#[test]
fn test_circuit_breaker() {
    let mut breaker = CircuitBreaker::new();

    assert!(matches!(breaker.state(), CircuitBreakerState::Closed));
    assert!(breaker.can_execute());

    for _ in 0..5 {
        breaker.record_failure();
    }

    assert!(matches!(breaker.state(), CircuitBreakerState::Open));
    assert!(!breaker.can_execute());
}

#[test]
fn test_safety_rules() {
    let rule = ValueRangeRule::new();
    assert!(rule.validate_change("connection_pool_max_size", &ParameterValue::Integer(5)));
    assert!(!rule.validate_change("connection_pool_max_size", &ParameterValue::Integer(0)));
}

#[test]
fn test_parameter_validation() {
    let manager = SafetyManager::new(true, 10, 300);
    assert!(manager.validate_parameter_change("connection_timeout_ms", &ParameterValue::Duration(30000)));
    assert!(!manager.validate_parameter_change("connection_timeout_ms", &ParameterValue::Duration(500)));
}

#[test]
fn test_rollback_mechanism() {
    let mut manager = SafetyManager::new(true, 10, 300);
    manager.record_parameter_change("test_param", ParameterValue::Integer(100), ParameterValue::Integer(200));
    let rollback_value = manager.trigger_rollback("test_param", "Test rollback").unwrap();
    assert_eq!(rollback_value, ParameterValue::Integer(100));
    assert_eq!(manager.total_rollbacks(), 1);
}

#[test]
fn breaker_half_opens_after_the_timeout_and_closes_after_successes() {
    let mut breaker = CircuitBreaker::new();
    for i in 0..5u64 {
        breaker.record_failure_at(1_000 + i);
    }
    assert!(!breaker.can_execute_at(1_004 + 299_999));
    assert!(breaker.can_execute_at(1_004 + 300_001));
    assert!(matches!(breaker.state(), CircuitBreakerState::HalfOpen));
    breaker.record_success();
    breaker.record_success();
    breaker.record_success();
    assert!(matches!(breaker.state(), CircuitBreakerState::Closed));
    assert_eq!(breaker.failure_count(), 0);
}

#[test]
fn rollback_without_history_fails() {
    let mut manager = SafetyManager::new(true, 10, 300);
    assert!(manager.trigger_rollback("nothing", "no change").is_err());
    assert_eq!(manager.total_rollbacks(), 0);
}

#[test]
fn disabled_manager_accepts_everything() {
    let manager = SafetyManager::new(false, 10, 300);
    assert!(manager.validate_parameter_change("connection_timeout_ms", &ParameterValue::Duration(1)));
}
