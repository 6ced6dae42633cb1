use notabot::bot::connection_pool::{after_failed_attempt, PoolConfig, RetryStep};

#[test]
fn test_pool_config_defaults() {
    let config = PoolConfig::default();
    assert_eq!(config.max_connections_per_platform, 5);
    assert_eq!(config.min_idle_connections, 1);
    assert_eq!(config.max_idle_connections, 3);
}

#[test]
fn pool_config_default_timeouts() {
    let config = PoolConfig::default();
    assert_eq!(config.connection_timeout_seconds, 30);
    assert_eq!(config.idle_timeout_seconds, 300);
    assert_eq!(config.retry_attempts, 3);
}

#[test]
fn retry_stops_after_the_last_attempt() {
    assert!(matches!(after_failed_attempt(1, 3), RetryStep::WaitAndRetry));
    assert!(matches!(after_failed_attempt(3, 3), RetryStep::GiveUp));
}
