use notabot::bot::blacklist::check_blacklist;
use notabot::bot::chat_bot::{ChatBot, Step};
use notabot::bot::moderation::{make_blacklist_entry, Exemptions, ModerationSystem, ViolationRecord};
use notabot::bot::types::{BlacklistPattern, ChatMessage, ExemptionLevel, ModerationAction};

fn chat(content: &str) -> ChatMessage {
    ChatMessage {
        platform: "twitch".to_string(),
        channel: "chan".to_string(),
        username: "a".to_string(),
        display_name: None,
        content: content.to_string(),
        timestamp: 1_700_000_000,
        user_badges: Vec::new(),
        is_mod: false,
        is_subscriber: false,
    }
}

fn entry(s: &str) -> BlacklistPattern {
    make_blacklist_entry(s.to_string()).unwrap()
}

#[test]
fn literal_entries_match_where_they_occur() {
    let bad = BlacklistPattern::Literal("bad".to_string());
    assert!(bad.matches("this is BAD", false, false));
    assert!(!bad.matches("this is BAD", true, false));
    assert!(bad.matches("a badge", false, false));
    assert!(!bad.matches("a badge", false, true));
    assert!(bad.matches("so bad!", false, true));
    assert!(!BlacklistPattern::Literal(String::new()).matches("anything", false, false));
}

#[test]
fn wildcard_entries_stand_for_any_run() {
    let free = entry("fr*e");
    assert!(free.matches("get FREE stuff", false, false));
    assert!(free.matches("a frame", false, false));
    assert!(!free.matches("get FREE stuff", true, false));
    let dotted = entry("a.b*");
    assert!(!dotted.matches("axb", false, false));
    assert!(dotted.matches("see a.bcd", false, false));
    let word = entry("b*d");
    assert!(word.matches("that was bad", false, true));
    assert!(!word.matches("abcd", false, true));
}

#[test]
fn regex_entries_match_as_regular_expressions() {
    let spam = entry("~/sp[a@]m/i");
    assert!(spam.matches("total SP@M here", true, false));
    let plain = entry("~/sp[a@]m/");
    assert!(!plain.matches("total SP@M here", true, false));
    assert!(plain.matches("total SP@M here", false, false));
}

#[test]
fn a_blacklist_matches_when_any_entry_does() {
    let list = vec![entry("fr*e"), BlacklistPattern::Literal("scam".to_string())];
    assert!(check_blacklist("what a SCAM", &list, false, false));
    assert!(!check_blacklist("hello there", &list, false, false));
    assert!(!check_blacklist("anything", &Vec::new(), false, false));
}

#[test]
fn blacklist_filters_fire() {
    let mut ms = ModerationSystem::new();
    ms.add_blacklist_filter("words".to_string(), vec!["scam".to_string(), "fr*e".to_string()], false, false,
        ExemptionLevel::Moderator, 300, None);
    let nobody = Exemptions { subscriber: false, regular: false, moderator: false, owner: false };
    let mut violations: Vec<ViolationRecord> = Vec::new();
    let r = ms.check_spam_filters_at(&chat("this is a Scam"), &Vec::new(), &mut violations, &nobody, 10);
    assert!(matches!(r, Some(ModerationAction::WarnUser { .. })));
    let r = ms.check_spam_filters_at(&chat("free stuff"), &Vec::new(), &mut violations, &nobody, 20);
    assert!(matches!(r, Some(ModerationAction::TimeoutUser { duration_seconds: 300 })));
    assert!(ms.check_spam_filters_at(&chat("hello"), &Vec::new(), &mut violations, &nobody, 30).is_none());

    let mut bot = ChatBot::new();
    bot.filters.moderation_system.add_blacklist_filter("words".to_string(), vec!["scam".to_string()], false, true,
        ExemptionLevel::Moderator, 300, None);
    let flagged = bot.handle_message_at(&chat("total scam"), 1_700_000_000_000);
    assert_eq!(flagged.next, Step::Done);
    assert_eq!(bot.total_violations, 1);
    let fine = bot.handle_message_at(&chat("scampi for dinner"), 1_700_000_001_000);
    assert_eq!(fine.next, Step::Regular { award: false });
}
