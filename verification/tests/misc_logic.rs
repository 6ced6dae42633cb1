use notabot::adaptive::config_integration::{apply_single_parameter_change, get_adaptive_parameters, AdaptiveSettings, ChangeOutcome, ConfigFile, ConfigurationTuningStrategy};
use notabot::adaptive::metrics::{MetricsAggregator, WindowRun};
use notabot::adaptive::parameters::{ParameterChange, ParameterValue};
use notabot::adaptive::tuning_engine::{classify_parameter, find_dominant_strategy, StrategyKind, LoadBalancingStrategy, AdaptiveAIStrategy};
use notabot::bot::chat_bot::{after_step, first_step, moderation_reply, Step};
use notabot::bot::enhanced_moderation::{assess_violation, final_action, ViolationSeverity};
use notabot::bot::types::{ChatMessage, ModerationAction};
use notabot::text::{parse_int, parse_uint};

fn settings() -> AdaptiveSettings {
    AdaptiveSettings {
        response_delay_ms: 100,
        rate_limit_per_minute: 20,
        max_message_length: 500,
        worker_threads: 4,
        batch_size: 10,
        cache_size_mb: 64,
        max_filters_per_message: 5,
        global_timeout_multiplier: 1.0f64.to_bits(),
        max_processing_threads: 2,
        pattern_cache_size_mb: 16,
        global_cooldown_seconds: 30,
        max_timers_per_channel: 8,
    }
}

fn change(name: &str, v: ParameterValue) -> ParameterChange {
    ParameterChange {
        timestamp: 0,
        parameter_name: name.to_string(),
        old_value: ParameterValue::Integer(0),
        new_value: v,
        reason: String::new(),
        triggered_by: String::new(),
    }
}

#[test]
fn test_config_adaptive_parameters() {
    let params = get_adaptive_parameters(&settings());
    assert!(params.iter().any(|(n, _)| n == "response_delay_ms"));
    assert!(params.iter().any(|(n, _)| n == "worker_threads"));
    assert!(params.iter().any(|(n, v)| n == "global_cooldown_seconds" && *v == ParameterValue::Duration(30000)));
}

#[test]
fn test_config_tuning_strategy() {
    let strategy = ConfigurationTuningStrategy::new(settings());
    assert_eq!(strategy.get_strategy_name(), "configuration_tuning");
    assert_eq!(strategy.get_priority(), 170);
}

#[test]
fn parameter_changes_reach_their_files() {
    let mut s = settings();
    assert_eq!(apply_single_parameter_change(&mut s, &change("worker_threads", ParameterValue::Integer(300))),
        ChangeOutcome::Saved(ConfigFile::Bot));
    assert_eq!(s.worker_threads, 44);
    assert_eq!(apply_single_parameter_change(&mut s, &change("global_cooldown_seconds", ParameterValue::Duration(45500))),
        ChangeOutcome::Saved(ConfigFile::Timers));
    assert_eq!(s.global_cooldown_seconds, 45);
    assert_eq!(apply_single_parameter_change(&mut s, &change("batch_size", ParameterValue::Boolean(true))),
        ChangeOutcome::Ignored);
    assert_eq!(apply_single_parameter_change(&mut s, &change("nope", ParameterValue::Integer(1))), ChangeOutcome::Ignored);
    assert_eq!(apply_single_parameter_change(&mut s, &change("global_timeout_multiplier", ParameterValue::Integer(2))),
        ChangeOutcome::MultiplierRequested);
}

#[test]
fn test_metrics_aggregation() {
    let ts: Vec<u64> = (0..7200u64).map(|i| 1_000_000 + i).collect();
    let hourly = MetricsAggregator::hourly_runs(&ts);
    assert_eq!(hourly.len(), 3);
    assert_eq!(hourly[0], WindowRun { start: 997_200, first: 0, end: 800 });
}

#[test]
fn the_window_starting_at_zero_is_a_window_of_its_own() {
    let runs = MetricsAggregator::window_runs(&vec![5, 4000], 3600);
    assert_eq!(runs, vec![WindowRun { start: 0, first: 0, end: 1 }, WindowRun { start: 3600, first: 1, end: 2 }]);
    assert!(MetricsAggregator::window_runs(&vec![], 60).is_empty());
}

#[test]
fn dominant_strategy_is_the_most_frequent() {
    assert_eq!(find_dominant_strategy(&vec![]), "none");
    let cs = vec![change("connection_timeout_ms", ParameterValue::Integer(1)),
        change("cache_size_mb", ParameterValue::Integer(1)), change("memory_limit", ParameterValue::Integer(1))];
    assert_eq!(find_dominant_strategy(&cs), "memory_tuning");
    assert_eq!(classify_parameter("pool_size"), StrategyKind::LoadBalancing);
    assert_eq!(classify_parameter("ai_confidence_threshold"), StrategyKind::AdaptiveAi);
    assert_eq!(LoadBalancingStrategy::new().get_priority(), 150);
    assert_eq!(AdaptiveAIStrategy::new().get_strategy_name(), "adaptive_ai");
}

#[test]
fn numbers_parse_as_std_does() {
    assert_eq!(parse_uint("255", 255), Some(255));
    assert_eq!(parse_uint("256", 255), None);
    assert_eq!(parse_uint("+1", 9), Some(1));
    assert_eq!(parse_uint("", 9), None);
    assert_eq!(parse_int("-9223372036854775808"), Some(i64::MIN));
    assert_eq!(parse_int("-0"), Some(0));
    assert_eq!(parse_int("-+1"), None);
    assert_eq!(parse_int("9223372036854775808"), None);
}

#[test]
fn message_handling_order() {
    assert_eq!(first_step(true, true), Step::Moderate);
    assert_eq!(first_step(false, true), Step::Timer);
    assert_eq!(first_step(false, false), Step::Regular { award: false });
    let mut s = Step::Timer;
    let mut seen = vec![s];
    while s != Step::Done {
        s = after_step(s, false);
        seen.push(s);
    }
    assert_eq!(seen, vec![Step::Timer, Step::Filter, Step::Achievement, Step::Points, Step::Regular { award: true },
        Step::Done]);
    assert_eq!(after_step(Step::Points, true), Step::AwardCommandPoints);
    assert_eq!(after_step(Step::Regular { award: true }, true), Step::AwardCommandPoints);
    assert_eq!(after_step(Step::Filter, true), Step::Done);
}

#[test]
fn moderation_replies() {
    let m = ChatMessage {
        platform: "p".to_string(), channel: "c".to_string(), username: "u".to_string(), display_name: None,
        content: String::new(), timestamp: 0, user_badges: Vec::new(), is_mod: false, is_subscriber: false,
    };
    assert_eq!(moderation_reply(&ModerationAction::TimeoutUser { duration_seconds: 60 }, &m).unwrap(),
        "@u has been timed out for 60 seconds");
    assert_eq!(moderation_reply(&ModerationAction::WarnUser { message: "stop".to_string() }, &m).unwrap(), "@u stop");
    assert!(moderation_reply(&ModerationAction::DeleteMessage, &m).is_none());
}

#[test]
fn violations_are_weighed() {
    assert!(assess_violation(&vec![], &None).is_none());
    let a = assess_violation(&vec!["leet".to_string()], &Some(ModerationAction::TimeoutUser { duration_seconds: 600 })).unwrap();
    assert_eq!(a.triggered_filters, vec!["leet".to_string(), "base_moderation".to_string()]);
    assert_eq!(a.severity, ViolationSeverity::Major);
    assert!(a.escalation_applied);
    let b = assess_violation(&vec![], &Some(ModerationAction::WarnUser { message: "x".to_string() })).unwrap();
    assert_eq!(b.severity, ViolationSeverity::Minor);
    assert!(!b.escalation_applied);
    assert!(matches!(final_action(&b, ModerationAction::LogOnly, None), ModerationAction::WarnUser { message } if message == "Please follow chat rules"));
    assert!(matches!(final_action(&a, ModerationAction::LogOnly, None), ModerationAction::LogOnly));
}
