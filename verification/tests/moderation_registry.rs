use notabot::bot::moderation::{make_blacklist_entry, Exemptions, ModerationSystem, ViolationRecord};
use notabot::bot::chat_bot::add_spam_filter_advanced_at;
use notabot::bot::types::{BlacklistPattern, ExemptionLevel, ModerationAction, ModerationEscalation, SpamFilterType};

#[test]
fn entries_are_classified() {
    assert!(matches!(make_blacklist_entry("bad*".to_string()), Some(BlacklistPattern::Wildcard(_))));
    assert!(matches!(make_blacklist_entry("plain".to_string()), Some(BlacklistPattern::Literal(_))));
    assert!(matches!(make_blacklist_entry("~/ba+d/i".to_string()), Some(BlacklistPattern::Regex { .. })));
    assert!(make_blacklist_entry("~/(unclosed/".to_string()).is_none());
}

#[test]
fn blacklist_filter_drops_refused_regexes() {
    let mut ms = ModerationSystem::new();
    ms.add_blacklist_filter("b".to_string(), vec!["ok".to_string(), "~/(/".to_string()], false, false,
        ExemptionLevel::Moderator, 60, None);
    let list = ms.list_filters();
    assert_eq!(list, vec![("b".to_string(), true)]);
}

#[test]
fn set_and_remove_report_unknown_filters() {
    let mut ms = ModerationSystem::new();
    assert!(!ms.set_filter_enabled("x", false));
    assert!(!ms.remove_filter("x"));
    ms.add_spam_filter_advanced("x".to_string(), SpamFilterType::ExcessiveCaps { max_percentage: 50 },
        notabot::bot::types::ModerationEscalation {
            first_offense: notabot::bot::types::ModerationAction::DeleteMessage,
            repeat_offense: notabot::bot::types::ModerationAction::LogOnly,
            offense_window_seconds: 1,
        }, ExemptionLevel::NoOne, false, None);
    assert!(ms.set_filter_enabled("x", false));
    assert_eq!(ms.list_filters(), vec![("x".to_string(), false)]);
    assert!(ms.remove_filter("x"));
    assert!(ms.list_filters().is_empty());
}

fn chat(user: &str, content: &str, is_mod: bool) -> notabot::bot::types::ChatMessage {
    notabot::bot::types::ChatMessage {
        platform: "twitch".to_string(),
        channel: "chan".to_string(),
        username: user.to_string(),
        display_name: None,
        content: content.to_string(),
        timestamp: 0,
        user_badges: Vec::new(),
        is_mod,
        is_subscriber: false,
    }
}

#[test]
fn spam_check_escalates_on_repeat_offenses() {
    let mut ms = ModerationSystem::new();
    ms.add_spam_filter_advanced("caps".to_string(), SpamFilterType::ExcessiveCaps { max_percentage: 70 },
        ModerationEscalation {
            first_offense: ModerationAction::WarnUser { message: "calm down".to_string() },
            repeat_offense: ModerationAction::TimeoutUser { duration_seconds: 60 },
            offense_window_seconds: 100,
        }, ExemptionLevel::Moderator, false, None);
    let nobody = Exemptions { subscriber: false, regular: false, moderator: false, owner: false };
    let mut violations: Vec<ViolationRecord> = Vec::new();
    let shout = chat("a", "WHY IS EVERYONE SO QUIET", false);
    let first = ms.check_spam_filters_at(&shout, &Vec::new(), &mut violations, &nobody, 1000);
    assert!(matches!(first, Some(ModerationAction::WarnUser { message }) if message == "calm down"));
    assert_eq!(violations.len(), 1);
    assert_eq!(violations[0].filter_name, "caps");
    let second = ms.check_spam_filters_at(&shout, &Vec::new(), &mut violations, &nobody, 1050);
    assert!(matches!(second, Some(ModerationAction::TimeoutUser { duration_seconds: 60 })));
    let later = ms.check_spam_filters_at(&shout, &Vec::new(), &mut violations, &nobody, 5000);
    assert!(matches!(later, Some(ModerationAction::WarnUser { .. })));
    let calm = chat("a", "why is everyone so quiet", false);
    assert!(ms.check_spam_filters_at(&calm, &Vec::new(), &mut violations, &nobody, 5001).is_none());
    let moderators = Exemptions { subscriber: false, regular: false, moderator: true, owner: false };
    assert!(ms.check_spam_filters_at(&shout, &Vec::new(), &mut violations, &moderators, 5002).is_none());
    ms.set_spam_protection_enabled(false);
    assert!(ms.check_spam_filters_at(&shout, &Vec::new(), &mut violations, &nobody, 5003).is_none());
    assert_eq!(violations.len(), 3);
}

#[test]
fn enhanced_filter_warns_then_times_out() {
    let mut ms = ModerationSystem::new();
    ms.add_spam_filter_enhanced("len".to_string(), SpamFilterType::MessageLength { max_length: 5 }, 90,
        ExemptionLevel::NoOne, None, false);
    let nobody = Exemptions { subscriber: false, regular: false, moderator: false, owner: false };
    let mut violations: Vec<ViolationRecord> = Vec::new();
    let long = chat("a", "far too long", false);
    let first = ms.check_spam_filters_at(&long, &Vec::new(), &mut violations, &nobody, 10);
    assert!(matches!(first, Some(ModerationAction::WarnUser { message }) if message == "Please follow chat rules (first warning)"));
    let second = ms.check_spam_filters_at(&long, &Vec::new(), &mut violations, &nobody, 20);
    assert!(matches!(second, Some(ModerationAction::TimeoutUser { duration_seconds: 90 })));
    ms.add_spam_filter_enhanced("len".to_string(), SpamFilterType::MessageLength { max_length: 5 }, 90,
        ExemptionLevel::NoOne, Some("shorter please".to_string()), true);
    assert_eq!(ms.list_filters().len(), 1);
    let mut fresh: Vec<ViolationRecord> = Vec::new();
    assert!(matches!(ms.check_spam_filters_at(&long, &Vec::new(), &mut fresh, &nobody, 30),
        Some(ModerationAction::LogOnly)));
}

#[test]
fn older_filter_settings_map_to_escalation_and_exemptions() {
    let mut ms = ModerationSystem::new();
    add_spam_filter_advanced_at(&mut ms, SpamFilterType::MessageLength { max_length: 5 }, 300, None, true, false, 1_700_000_000);
    let listed = ms.list_filters();
    assert_eq!(listed, vec![("message_length_1700000000".to_string(), true)]);

    let nobody = Exemptions { subscriber: false, regular: false, moderator: false, owner: false };
    let subscribers = Exemptions { subscriber: true, regular: false, moderator: false, owner: false };
    let moderators = Exemptions { subscriber: false, regular: false, moderator: true, owner: false };
    let mut violations: Vec<ViolationRecord> = Vec::new();
    let long = chat("a", "far too long", false);
    assert!(ms.check_spam_filters_at(&long, &Vec::new(), &mut violations, &moderators, 10).is_none());
    let first = ms.check_spam_filters_at(&long, &Vec::new(), &mut violations, &subscribers, 10);
    assert!(matches!(first, Some(ModerationAction::WarnUser { message }) if message == "Please follow chat rules (first warning)"));
    let second = ms.check_spam_filters_at(&long, &Vec::new(), &mut violations, &nobody, 20);
    assert!(matches!(second, Some(ModerationAction::TimeoutUser { duration_seconds: 300 })));

    let mut both = ModerationSystem::new();
    add_spam_filter_advanced_at(&mut both, SpamFilterType::MessageLength { max_length: 5 }, 60,
        Some("keep it short".to_string()), true, true, -5);
    assert_eq!(both.list_filters(), vec![("message_length_-5".to_string(), true)]);
    let mut fresh: Vec<ViolationRecord> = Vec::new();
    assert!(both.check_spam_filters_at(&long, &Vec::new(), &mut fresh, &subscribers, 10).is_none());
    let warned = both.check_spam_filters_at(&long, &Vec::new(), &mut fresh, &nobody, 10);
    assert!(matches!(warned, Some(ModerationAction::WarnUser { message }) if message == "keep it short"));

    let mut subs_only = ModerationSystem::new();
    add_spam_filter_advanced_at(&mut subs_only, SpamFilterType::MessageLength { max_length: 5 }, 60, None, false, true, 7);
    let mut again: Vec<ViolationRecord> = Vec::new();
    assert!(subs_only.check_spam_filters_at(&long, &Vec::new(), &mut again, &subscribers, 10).is_none());
    assert!(subs_only.check_spam_filters_at(&long, &Vec::new(), &mut again, &nobody, 10).is_some());
}
