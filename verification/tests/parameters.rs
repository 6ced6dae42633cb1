use notabot::adaptive::parameters::{ParameterConstraints, ParameterError, ParameterStore, ParameterUtils, ParameterValue};

#[test]
fn test_parameter_value_conversions() {
    let int_val = ParameterValue::Integer(42);
    assert_eq!(int_val.as_i64(), Some(42));
    assert_eq!(int_val.as_i64().map(|v| v as f64), Some(42.0));

    let float_val = ParameterValue::Float(3.14f64.to_bits());
    assert_eq!(float_val.float_bits().map(f64::from_bits), Some(3.14));
    assert_eq!(float_val.as_i64(), Some(3));

    let bool_val = ParameterValue::Boolean(true);
    assert_eq!(bool_val.as_bool(), Some(true));

    let duration_val = ParameterValue::Duration(5000);
    assert_eq!(duration_val.as_duration_ms(), Some(5000));
}

#[test]
fn test_parameter_constraints() {
    let constraints = ParameterConstraints {
        min_value: Some(ParameterValue::Integer(1)),
        max_value: Some(ParameterValue::Integer(10)),
        allowed_values: None,
        step_size: None,
    };

    assert!(constraints.validate(&ParameterValue::Integer(5)).is_ok());
    assert!(constraints.validate(&ParameterValue::Integer(0)).is_err());
    assert!(constraints.validate(&ParameterValue::Integer(15)).is_err());
}

#[test]
fn test_parameter_store_operations() {
    let mut store = ParameterStore::new();

    let connection_timeout = store.get_parameter("connection_timeout_ms");
    assert!(connection_timeout.is_some());

    let result = store.set_parameter("connection_timeout_ms", ParameterValue::Duration(45000));
    assert!(result.is_ok());

    let updated_value = store.get_parameter("connection_timeout_ms");
    assert_eq!(updated_value, Some(&ParameterValue::Duration(45000)));

    let history = store.get_change_history(Some("connection_timeout_ms"));
    assert_eq!(history.len(), 1);
}

#[test]
fn a_new_store_holds_the_default_parameters() {
    let mut store = ParameterStore::new();
    assert_eq!(store.get_all_parameters().len(), 13);
    assert_eq!(store.get_parameter("connection_timeout_ms"), Some(&ParameterValue::Duration(30000)));
    assert_eq!(store.get_parameter("gc_threshold_percent"), Some(&ParameterValue::Float(80.0f64.to_bits())));
    assert_eq!(store.get_parameter("learning_rate"), Some(&ParameterValue::Float(0.001f64.to_bits())));
    assert_eq!(store.get_parameter("cache_max_entries"), Some(&ParameterValue::Integer(1000)));
    assert_eq!(store.get_parameter("worker_thread_count"), Some(&ParameterValue::Integer(4)));
    assert!(store.get_change_history(None).is_empty());

    let def = store.get_parameter_definition("connection_timeout_ms").unwrap();
    assert_eq!(def.default_value, ParameterValue::Duration(30000));
    assert_eq!(def.constraints.min_value, Some(ParameterValue::Duration(5000)));
    assert_eq!(def.constraints.max_value, Some(ParameterValue::Duration(120000)));
    assert_eq!(def.constraints.step_size, Some(ParameterValue::Duration(5000)));
    let queue = store.get_parameter_definition("processing_queue_max_size").unwrap();
    assert_eq!(queue.dependencies, vec!["message_processing_batch_size".to_string()]);

    let old = store.set_parameter("connection_timeout_ms", ParameterValue::Duration(45000));
    assert_eq!(old, Ok(ParameterValue::Duration(30000)));
    assert_eq!(store.get_parameter("connection_timeout_ms"), Some(&ParameterValue::Duration(45000)));
    assert_eq!(store.get_change_history(Some("connection_timeout_ms")).len(), 1);
}

#[test]
fn negative_float_truncates_toward_zero() {
    assert_eq!(ParameterValue::Float((-2.9f64).to_bits()).as_i64(), Some(-2));
    assert_eq!(ParameterValue::Float(f64::NAN.to_bits()).as_i64(), Some(0));
    assert_eq!(ParameterValue::Float(1e300f64.to_bits()).as_i64(), Some(i64::MAX));
}

#[test]
fn negative_integer_is_no_duration() {
    assert_eq!(ParameterValue::Integer(-1).as_duration_ms(), None);
    assert_eq!(ParameterValue::Integer(7).as_duration_ms(), Some(7));
    assert_eq!(ParameterValue::Boolean(true).as_i64(), None);
}

#[test]
fn refused_set_leaves_the_value() {
    let mut store = ParameterStore::new();
    let before = store.get_parameter("connection_timeout_ms").cloned();
    assert!(store.set_parameter("connection_timeout_ms", ParameterValue::Duration(1)).is_err());
    assert_eq!(store.get_parameter("connection_timeout_ms").cloned(), before);
    assert!(store.set_parameter("no_such_parameter", ParameterValue::Integer(1)).is_err());
}

#[test]
fn reset_restores_the_default() {
    let mut store = ParameterStore::new();
    let default = store.get_parameter("connection_timeout_ms").cloned();
    store.set_parameter("connection_timeout_ms", ParameterValue::Duration(45000)).unwrap();
    store.reset_parameter("connection_timeout_ms").unwrap();
    assert_eq!(store.get_parameter("connection_timeout_ms").cloned(), default);
}

#[test]
fn integer_step_rounding_is_to_the_nearest_step() {
    let r = ParameterUtils::round_to_integer_step(ParameterValue::Integer(17), &ParameterValue::Integer(5));
    assert_eq!(r, ParameterValue::Integer(15));
    let r = ParameterUtils::round_to_integer_step(ParameterValue::Integer(18), &ParameterValue::Integer(5));
    assert_eq!(r, ParameterValue::Integer(20));
    let r = ParameterUtils::round_to_integer_step(ParameterValue::Integer(-18), &ParameterValue::Integer(5));
    assert_eq!(r, ParameterValue::Integer(-20));
    let r = ParameterUtils::round_to_integer_step(ParameterValue::Integer(25), &ParameterValue::Integer(10));
    assert_eq!(r, ParameterValue::Integer(30));
    let r = ParameterUtils::round_to_integer_step(ParameterValue::Duration(1800), &ParameterValue::Duration(1000));
    assert_eq!(r, ParameterValue::Duration(2000));
}

#[test]
fn clamping_keeps_values_in_range() {
    let c = ParameterConstraints {
        min_value: Some(ParameterValue::Integer(1)),
        max_value: Some(ParameterValue::Integer(10)),
        allowed_values: None,
        step_size: None,
    };
    assert_eq!(ParameterUtils::clamp_to_range(ParameterValue::Integer(50), &c), ParameterValue::Integer(10));
    assert_eq!(ParameterUtils::clamp_to_range(ParameterValue::Integer(-5), &c), ParameterValue::Integer(1));
    assert_eq!(ParameterUtils::clamp_to_range(ParameterValue::Integer(4), &c), ParameterValue::Integer(4));
}

#[test]
fn float_values_compare_as_numbers() {
    let zero = ParameterValue::Float(0.0f64.to_bits());
    let negative_zero = ParameterValue::Float((-0.0f64).to_bits());
    let nan = ParameterValue::Float(f64::NAN.to_bits());
    assert!(zero == negative_zero);
    assert!(nan != ParameterValue::Float(f64::NAN.to_bits()));
    assert!(ParameterValue::Float(1.5f64.to_bits()) == ParameterValue::Float(1.5f64.to_bits()));

    let only_zero = ParameterConstraints {
        min_value: None,
        max_value: None,
        allowed_values: Some(vec![zero]),
        step_size: None,
    };
    assert!(only_zero.validate(&negative_zero).is_ok());
    let only_nan = ParameterConstraints {
        min_value: None,
        max_value: None,
        allowed_values: Some(vec![nan]),
        step_size: None,
    };
    assert!(only_nan.validate(&ParameterValue::Float(f64::NAN.to_bits())).is_err());
}

#[test]
fn tuning_windows_follow_the_frequency() {
    let mut store = ParameterStore::new();
    assert_eq!(store.can_tune_parameter_at("connection_timeout_ms", 10), Ok(true));
    assert_eq!(store.can_tune_parameter_at("connection_pool_max_size", 10), Ok(true));
    assert_eq!(store.can_tune_parameter_at("connection_pool_max_size", 4000), Ok(true));
    assert_eq!(store.can_tune_parameter_at("learning_rate", 4000), Ok(true));
    assert_eq!(store.can_tune_parameter_at("learning_rate", 90000), Ok(true));
    assert_eq!(store.can_tune_parameter_at("missing", 10), Err(ParameterError::NotFound));
    assert!(store.set_parameter_at("connection_pool_max_size", ParameterValue::Integer(5), 90000).is_ok());
    assert_eq!(store.can_tune_parameter_at("connection_pool_max_size", 90100), Ok(false));
    assert_eq!(store.can_tune_parameter_at("connection_pool_max_size", 93601), Ok(true));
}
