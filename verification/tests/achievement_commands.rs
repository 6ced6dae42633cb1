use notabot::bot::achievement_commands::{AchievementCommandOutcome, AchievementCommands};
use notabot::bot::achievements::{
    Achievement, AchievementCategory, AchievementRarity, AchievementRequirement, AchievementSystem,
};
use notabot::bot::points::UserPoints;
use notabot::bot::types::ChatMessage;

fn ach(id: &str, name: &str, req: AchievementRequirement, emoji: &str, rarity: AchievementRarity, hidden: bool) -> Achievement {
    Achievement {
        id: id.to_string(),
        name: name.to_string(),
        description: format!("about {}", name),
        category: AchievementCategory::Engagement,
        requirement: req,
        reward_points: 10,
        badge_emoji: emoji.to_string(),
        rarity,
        hidden,
    }
}

fn catalogue() -> AchievementSystem {
    let mut s = AchievementSystem::new();
    s.insert_achievement(ach("first", "First Words", AchievementRequirement::MessageCount(1), "👋", AchievementRarity::Common, false));
    s.insert_achievement(ach("talker", "Talker", AchievementRequirement::MessageCount(5), "💬", AchievementRarity::Rare, false));
    s.insert_achievement(ach("legend", "Legend", AchievementRequirement::MessageCount(1000), "👑", AchievementRarity::Epic, false));
    s.insert_achievement(ach("cmd", "Commander", AchievementRequirement::CommandsUsed(1), "⚡", AchievementRarity::Uncommon, false));
    s.insert_achievement(ach("secret", "Secret", AchievementRequirement::Custom("x".to_string()), "🤫", AchievementRarity::Mythic, true));
    s
}

fn user(name: &str, messages: u64, commands: u64) -> UserPoints {
    let mut u = UserPoints::new_at("twitch".to_string(), name.to_string(), None, 0);
    u.messages_sent = messages;
    u.commands_used = commands;
    u
}

fn msg(user: &str, is_mod: bool) -> ChatMessage {
    ChatMessage {
        platform: "twitch".to_string(),
        channel: "chan".to_string(),
        username: user.to_string(),
        display_name: None,
        content: String::new(),
        timestamp: 0,
        user_badges: Vec::new(),
        is_mod,
        is_subscriber: false,
    }
}

fn reply(o: AchievementCommandOutcome) -> String {
    match o {
        AchievementCommandOutcome::Reply(r) => r,
        _ => String::new(),
    }
}

#[test]
fn achievements_list_shows_the_rarest_three() {
    let mut s = catalogue();
    let unlocked = s.check_achievements(&user("ann", 6, 1));
    assert_eq!(unlocked.len(), 3);
    let c = AchievementCommands::new(s);
    let none: Vec<String> = Vec::new();
    assert_eq!(c.handle_achievements_command(&none, &msg("ann", false)),
        "🏆 ann has 3/4 achievements! Recent: 💬 Talker | ⚡ Commander | 👋 First Words ✨ (!achievement <name> for details)");
    assert_eq!(c.handle_achievements_command(&vec!["bob".to_string()], &msg("ann", false)),
        "🏆 bob has 0/4 achievements unlocked! Start participating to earn your first achievement! 🌟");
    let empty = AchievementCommands::new(AchievementSystem::new());
    assert_eq!(empty.handle_achievements_command(&none, &msg("ann", false)),
        "🏆 No achievements available yet! Start chatting and watching to unlock them! ✨");
}

#[test]
fn achievement_commands_are_dispatched() {
    let mut s = catalogue();
    s.check_achievements(&user("ann", 1, 0));
    let c = AchievementCommands::new(s);
    let none: Vec<String> = Vec::new();
    assert_eq!(reply(c.process_command("achieve", &none, &msg("ann", false))),
        "🏆 ann has 1/4 achievements! Recent: 👋 First Words ✨ (!achievement <name> for details)");
    let details = reply(c.process_command("achievement", &vec!["talk".to_string()], &msg("ann", false)));
    assert_eq!(details, "💬 Talker 🔒 Locked | about Talker | Reward: 10 pts | 🔵 Rare | Progress: 1/5 messages");
    assert!(matches!(c.process_command("progress", &none, &msg("ann", false)), AchievementCommandOutcome::ShowProgress));
    assert!(matches!(c.process_command("achievementstats", &none, &msg("ann", true)), AchievementCommandOutcome::ShowStatistics));
    assert_eq!(reply(c.process_command("achievementstats", &none, &msg("ann", false))),
        "❌ This command is for moderators only!");
    assert!(matches!(c.process_command("points", &none, &msg("ann", false)), AchievementCommandOutcome::NotHandled));
    assert_eq!(reply(c.process_command("achievetop", &none, &msg("ann", false))),
        "🏆 TOP 5 ACHIEVEMENT HUNTERS 🏆 | 🥇1. ann (10 pts, 1 achievements) ");
}

#[test]
fn there_are_twenty_distinct_default_achievements() {
    let system = AchievementSystem::new();
    let all = system.create_default_achievements();
    assert_eq!(all.len(), 20);
    let mut ids: Vec<&str> = all.iter().map(|a| a.id.as_str()).collect();
    ids.sort();
    ids.dedup();
    assert_eq!(ids.len(), 20);
    let first = all.iter().find(|a| a.id == "first_message").unwrap();
    assert_eq!(first.reward_points, 50);
}
