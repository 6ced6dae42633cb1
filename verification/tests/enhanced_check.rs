use notabot::bot::enhanced_moderation::{check_message_enhanced_at, EnhancedCheck, ViolationSeverity};
use notabot::bot::pattern_matching::{default_advanced_patterns, AdvancedPattern};
use notabot::bot::realtime_analytics::FilterAnalyticsSystem;
use notabot::bot::moderation::{Exemptions, ModerationSystem, ViolationRecord};
use notabot::bot::types::{ChatMessage, ExemptionLevel, ModerationAction, ModerationEscalation, SpamFilterType};

fn chat(content: &str) -> ChatMessage {
    ChatMessage {
        platform: "twitch".to_string(),
        channel: "chan".to_string(),
        username: "a".to_string(),
        display_name: None,
        content: content.to_string(),
        timestamp: 0,
        user_badges: Vec::new(),
        is_mod: false,
        is_subscriber: false,
    }
}

fn caps_filter() -> ModerationSystem {
    let mut ms = ModerationSystem::new();
    ms.add_spam_filter_advanced("caps".to_string(), SpamFilterType::ExcessiveCaps { max_percentage: 70 },
        ModerationEscalation {
            first_offense: ModerationAction::WarnUser { message: "calm down".to_string() },
            repeat_offense: ModerationAction::TimeoutUser { duration_seconds: 60 },
            offense_window_seconds: 100,
        }, ExemptionLevel::Moderator, false, None);
    ms
}

const NOBODY: Exemptions = Exemptions { subscriber: false, regular: false, moderator: false, owner: false };

#[test]
fn without_enhanced_features_the_base_filters_decide() {
    let ms = caps_filter();
    let mut violations: Vec<ViolationRecord> = Vec::new();
    let mut analytics = FilterAnalyticsSystem::new();
    let r = check_message_enhanced_at(&ms, false, &vec![AdvancedPattern::Leetspeak("hello".to_string())], &chat("WHY SO QUIET HERE"), &Vec::new(),
        &mut violations, &NOBODY, &mut analytics, 1000);
    match r {
        EnhancedCheck::Decided(o) => {
            assert!(matches!(o.action, ModerationAction::WarnUser { ref message } if message == "calm down"));
            assert_eq!(o.triggered_filters, vec!["base_filter".to_string()]);
            assert!(o.advanced_patterns.is_empty());
            assert!(!o.escalation_applied);
            assert_eq!(o.severity, ViolationSeverity::Moderate);
        }
        _ => panic!("expected a decision"),
    }
    assert_eq!(violations.len(), 1);
    assert_eq!(analytics.total_messages_processed, 0);
    let calm = check_message_enhanced_at(&ms, false, &vec![], &chat("hello there"), &Vec::new(),
        &mut violations, &NOBODY, &mut analytics, 1001);
    assert!(matches!(calm, EnhancedCheck::Clean));
}

#[test]
fn a_lone_pattern_match_is_warned() {
    let ms = caps_filter();
    let mut violations: Vec<ViolationRecord> = Vec::new();
    let mut analytics = FilterAnalyticsSystem::new();
    let r = check_message_enhanced_at(&ms, true, &vec![AdvancedPattern::Leetspeak("hello".to_string())], &chat("hello there"), &Vec::new(),
        &mut violations, &NOBODY, &mut analytics, 1000);
    match r {
        EnhancedCheck::Decided(o) => {
            assert!(matches!(o.action, ModerationAction::WarnUser { ref message } if message == "Please follow chat rules"));
            assert_eq!(o.triggered_filters, vec!["Leetspeak(\"hello\")".to_string()]);
            assert_eq!(o.advanced_patterns, vec!["Leetspeak(\"hello\")".to_string()]);
            assert_eq!(o.severity, ViolationSeverity::Moderate);
        }
        _ => panic!("expected a decision"),
    }
    assert!(violations.is_empty());
    let clean = check_message_enhanced_at(&ms, true, &vec![], &chat("hello there"), &Vec::new(),
        &mut violations, &NOBODY, &mut analytics, 1000);
    assert!(matches!(clean, EnhancedCheck::Clean));
}

#[test]
fn a_first_offense_is_warned_and_recorded_once() {
    let ms = caps_filter();
    let mut violations: Vec<ViolationRecord> = Vec::new();
    let mut analytics = FilterAnalyticsSystem::new();
    let r = check_message_enhanced_at(&ms, true, &vec![], &chat("WHY SO QUIET HERE"), &Vec::new(),
        &mut violations, &NOBODY, &mut analytics, 1000);
    match r {
        EnhancedCheck::Decided(o) => {
            assert!(matches!(o.action, ModerationAction::WarnUser { ref message } if message == "calm down"));
            assert_eq!(o.triggered_filters, vec!["base_moderation".to_string()]);
            assert_eq!(o.severity, ViolationSeverity::Minor);
        }
        _ => panic!("expected a decision"),
    }
    assert_eq!(violations.len(), 1);
    let again = check_message_enhanced_at(&ms, true, &vec![], &chat("WHY SO QUIET HERE"), &Vec::new(),
        &mut violations, &NOBODY, &mut analytics, 1010);
    match again {
        EnhancedCheck::Decided(o) => assert!(matches!(o.action, ModerationAction::TimeoutUser { duration_seconds: 60 })),
        _ => panic!("expected a decision"),
    }
    assert_eq!(violations.len(), 2);
}

#[test]
fn test_enhanced_moderation() {
    let base = ModerationSystem::new();
    let patterns = default_advanced_patterns();
    let mut violations: Vec<ViolationRecord> = Vec::new();
    let mut analytics = FilterAnalyticsSystem::new();
    let r = check_message_enhanced_at(&base, true, &patterns, &chat("sp4m message with l33tsp34k"), &Vec::new(),
        &mut violations, &NOBODY, &mut analytics, 1000);
    let advanced = match r {
        EnhancedCheck::Decided(o) => o.advanced_patterns,
        EnhancedCheck::Escalate(a) => a.advanced_patterns,
        EnhancedCheck::Clean => panic!("the leetspeak should be found"),
    };
    assert!(!advanced.is_empty());
    assert!(advanced.contains(&format!("{:?}", AdvancedPattern::Leetspeak("spam".to_string()))));
}

#[test]
fn several_checks_tripped_call_for_escalation() {
    let ms = caps_filter();
    let mut violations: Vec<ViolationRecord> = Vec::new();
    let mut analytics = FilterAnalyticsSystem::new();
    let r = check_message_enhanced_at(&ms, true, &vec![AdvancedPattern::Leetspeak("quiet".to_string())], &chat("WHY SO QUIET HERE"), &Vec::new(),
        &mut violations, &NOBODY, &mut analytics, 1000);
    match r {
        EnhancedCheck::Escalate(a) => {
            assert_eq!(a.triggered_filters, vec!["Leetspeak(\"quiet\")".to_string(), "base_moderation".to_string()]);
            assert_eq!(a.severity, ViolationSeverity::Moderate);
            assert!(a.escalation_applied);
        }
        _ => panic!("expected escalation"),
    }
    assert_eq!(analytics.get_filter_counts("base_moderation").unwrap().total_triggers, 1);
    assert_eq!(analytics.get_filter_counts("Leetspeak(\"quiet\")").unwrap().true_positives, 1);
    assert_eq!(analytics.total_messages_processed, 2);
    assert_eq!(violations.len(), 1);
}
