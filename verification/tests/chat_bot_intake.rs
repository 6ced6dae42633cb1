use notabot::bot::chat_bot::{ChatBot, Step};
use notabot::bot::types::{ChatMessage, ExemptionLevel, ModerationAction, ModerationEscalation, SpamFilterType};

fn chat(user: &str, content: &str, is_mod: bool) -> ChatMessage {
    ChatMessage {
        platform: "twitch".to_string(),
        channel: "chan".to_string(),
        username: user.to_string(),
        display_name: None,
        content: content.to_string(),
        timestamp: 1_700_000_000,
        user_badges: Vec::new(),
        is_mod,
        is_subscriber: false,
    }
}

fn bot_with_caps_filter() -> ChatBot {
    let mut bot = ChatBot::new();
    bot.filters.moderation_system.add_spam_filter_advanced("caps".to_string(), SpamFilterType::ExcessiveCaps { max_percentage: 70 },
        ModerationEscalation {
            first_offense: ModerationAction::WarnUser { message: "calm down".to_string() },
            repeat_offense: ModerationAction::TimeoutUser { duration_seconds: 60 },
            offense_window_seconds: 100,
        }, ExemptionLevel::Moderator, false, None);
    bot
}

const NOW_MS: u64 = 1_700_000_000_000;

#[test]
fn a_flagged_message_is_answered_and_goes_no_further() {
    let mut bot = bot_with_caps_filter();
    let first = bot.handle_message_at(&chat("a", "!HI EVERYONE OUT THERE", false), NOW_MS);
    assert_eq!(first.replies, vec!["@a calm down".to_string()]);
    assert_eq!(first.next, Step::Done);
    assert_eq!(bot.total_violations, 1);
    let user = bot.points.points_system.get_user_points("twitch", "a").unwrap();
    assert_eq!(user.messages_sent, 1);

    let second = bot.handle_message_at(&chat("a", "STOP BEING SO QUIET", false), NOW_MS + 5_000);
    assert_eq!(second.replies, vec!["@a has been timed out for 60 seconds".to_string()]);
    assert_eq!(bot.total_violations, 2);
}

#[test]
fn other_messages_go_on_to_the_command_handlers() {
    let mut bot = bot_with_caps_filter();
    let command = bot.handle_message_at(&chat("a", "!hello", false), NOW_MS);
    assert!(command.replies.is_empty());
    assert_eq!(command.next, Step::Timer);
    let plain = bot.handle_message_at(&chat("b", "hello there", false), NOW_MS);
    assert_eq!(plain.next, Step::Regular { award: false });
    assert_eq!(bot.total_violations, 0);
}

#[test]
fn moderators_and_the_broadcaster_bypass_a_moderator_level_filter() {
    let mut bot = bot_with_caps_filter();
    let r = bot.handle_message_at(&chat("m", "WHY IS EVERYONE SO QUIET", true), NOW_MS);
    assert_eq!(r.next, Step::Regular { award: false });
    let mut owner = chat("o", "WHY IS EVERYONE SO QUIET", false);
    owner.user_badges = vec!["broadcaster".to_string()];
    let r = bot.handle_message_at(&owner, NOW_MS);
    assert_eq!(r.next, Step::Regular { award: false });
    assert_eq!(bot.total_violations, 0);
}
