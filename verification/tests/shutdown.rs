use notabot::bot::shutdown::{GracefulShutdown, ShutdownPhase};

#[test]
fn test_graceful_shutdown_phases() {
    let mut shutdown_manager = GracefulShutdown::with_default_config();
    assert_eq!(shutdown_manager.get_phase(), ShutdownPhase::Running);
    shutdown_manager.trigger_shutdown();
    assert_eq!(shutdown_manager.get_phase(), ShutdownPhase::Draining);
}

#[test]
fn test_operation_permits_during_shutdown() {
    let mut shutdown_manager = GracefulShutdown::with_default_config();
    assert!(shutdown_manager.may_start_operation());
    shutdown_manager.trigger_shutdown();
    assert!(!shutdown_manager.may_start_operation());
}

#[test]
fn shutdown_completes_with_its_duration() {
    let mut s = GracefulShutdown::with_default_config();
    s.begin(1_000);
    s.drained(false);
    s.complete(3_500);
    assert_eq!(s.get_phase(), ShutdownPhase::Stopped);
    assert_eq!(s.duration_ms(), Some(2_500));
}
