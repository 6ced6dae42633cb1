use notabot::bot::filter_commands::{sanitize_filter_name, FilterCommands};
use notabot::bot::moderation::ModerationSystem;
use notabot::bot::types::ChatMessage;

fn msg(is_mod: bool) -> ChatMessage {
    ChatMessage {
        platform: "twitch".to_string(),
        channel: "chan".to_string(),
        username: "mod".to_string(),
        display_name: None,
        content: String::new(),
        timestamp: 0,
        user_badges: Vec::new(),
        is_mod,
        is_subscriber: false,
    }
}

fn args(v: &[&str]) -> Vec<String> {
    v.iter().map(|s| s.to_string()).collect()
}

#[test]
fn sanitized_names_keep_alphanumerics_only() {
    assert_eq!(sanitize_filter_name("bad word!"), "bad_word");
    assert_eq!(sanitize_filter_name("__x__"), "x");
    assert_eq!(sanitize_filter_name("***"), "");
}

#[test]
fn blacklist_add_list_remove() {
    let mut fc = FilterCommands::new(ModerationSystem::new());
    let r = fc.handle_blacklist_command(&args(&["add", "bad*word", "120", "sub"]));
    assert_eq!(r, "✅ Added wildcard blacklist pattern: 'bad*word' | Timeout: 120s | Filter: 'blacklist_bad_word'");
    let l = fc.handle_blacklist_command(&args(&["list"]));
    assert_eq!(l, "🚫 Blacklist Filters (1): ✅ bad_word");
    let r = fc.handle_blacklist_command(&args(&["remove", "bad*word"]));
    assert_eq!(r, "🗑️ Removed blacklist filter: 'blacklist_bad_word'");
    let r = fc.handle_blacklist_command(&args(&["remove", "blacklist_bad_word"]));
    assert_eq!(r, "❌ Blacklist filter 'blacklist_bad_word' not found");
    assert_eq!(fc.handle_blacklist_command(&args(&["list"])), "📝 No blacklist filters configured");
}

#[test]
fn blacklist_usage_and_unknown() {
    let mut fc = FilterCommands::new(ModerationSystem::new());
    assert!(fc.handle_blacklist_command(&args(&[])).starts_with("🚫 Blacklist Commands"));
    assert_eq!(fc.handle_blacklist_command(&args(&["add"])), "Usage: !blacklist add <pattern> [timeout_seconds] [exemption_level]");
    assert_eq!(fc.handle_blacklist_command(&args(&["nope"])), "❌ Unknown subcommand. Use: add, remove, list");
    let r = fc.handle_blacklist_command(&args(&["add", "plain", "notanumber"]));
    assert_eq!(r, "✅ Added literal blacklist pattern: 'plain' | Timeout: 600s | Filter: 'blacklist_plain'");
}

#[test]
fn filters_enable_disable_and_add() {
    let mut fc = FilterCommands::new(ModerationSystem::new());
    assert_eq!(fc.handle_filters_command_at(&args(&["disable"]), 1), "⏸️ Global spam protection disabled");
    assert!(!fc.moderation_system.is_protection_enabled());
    assert_eq!(fc.handle_filters_command_at(&args(&["enable"]), 1), "✅ Global spam protection enabled");
    let r = fc.handle_filters_command_at(&args(&["add", "caps", "80"]), 1700000000);
    assert_eq!(r, "✅ Added caps filter: 'caps_1700000000'");
    assert_eq!(fc.handle_filters_command_at(&args(&["disable", "caps_1700000000"]), 1), "⏸️ Filter 'caps_1700000000' disabled");
    assert_eq!(fc.handle_filters_command_at(&args(&["list"]), 1), "🛡️ Spam Filters (1): ❌ caps_1700000000");
    assert_eq!(fc.handle_filters_command_at(&args(&["enable", "nope"]), 1), "❌ Filter 'nope' not found");
    assert_eq!(fc.handle_filters_command_at(&args(&["add", "weird"]), 1),
        "❌ Unknown filter type. Available: caps, links, length, emotes, symbols, rate, repeat");
    assert_eq!(fc.handle_filters_command_at(&args(&["remove", "caps_1700000000"]), 1), "🗑️ Filter 'caps_1700000000' removed");
}

#[test]
fn only_moderators_run_filter_commands() {
    let mut fc = FilterCommands::new(ModerationSystem::new());
    assert!(fc.process_command_at("filters", &args(&[]), &msg(false), 1, 0).is_none());
    assert!(fc.process_command_at("other", &args(&[]), &msg(true), 1, 0).is_none());
    let r = fc.process_command_at("filterstats", &args(&[]), &msg(true), 1, 7).unwrap();
    assert_eq!(r, "📊 Filter Stats: 0 total | 0 enabled | 7 violations | Global: ON | Use !filterlist for details");
}
