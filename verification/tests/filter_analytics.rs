use notabot::bot::realtime_analytics::{FilterAnalyticsSystem, TriggerCounts, UserReportType};

#[test]
fn triggers_and_reports_are_counted_per_filter() {
    let mut a = FilterAnalyticsSystem::new();
    assert!(a.get_filter_counts("test_filter").is_none());
    a.record_trigger("test_filter", "blacklist", true);
    a.record_trigger("test_filter", "blacklist", false);
    let c = a.get_filter_counts("test_filter").unwrap();
    assert_eq!((c.total_triggers, c.true_positives, c.false_positives, c.false_negatives), (2, 1, 1, 0));
    assert_eq!((a.total_messages_processed, a.total_violations_detected), (2, 1));
    assert!(a.record_user_report("test_filter", UserReportType::FalsePositive));
    assert!(a.record_user_report("test_filter", UserReportType::MissedViolation));
    assert!(a.record_user_report("test_filter", UserReportType::Appeal));
    let c = a.get_filter_counts("test_filter").unwrap();
    assert_eq!((c.total_triggers, c.true_positives, c.false_positives, c.false_negatives), (2, 0, 2, 1));
    assert!(!a.record_user_report("other", UserReportType::FalsePositive));
    assert!(a.get_filter_counts("other").is_none());
}

#[test]
fn false_positive_report_without_true_positives_only_adds() {
    let mut c = TriggerCounts::new();
    c.record_report(UserReportType::FalsePositive);
    assert_eq!((c.true_positives, c.false_positives), (0, 1));
    c.record_trigger(true);
    assert!(c.true_positives <= c.total_triggers && c.total_triggers <= c.true_positives + c.false_positives);
}
