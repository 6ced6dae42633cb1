use notabot::bot::points::{PointsSystem, UserPoints};
use notabot::bot::points_commands::PointsCommands;
use notabot::bot::types::ChatMessage;

fn msg(user: &str, content: &str, is_mod: bool) -> ChatMessage {
    ChatMessage {
        platform: "twitch".to_string(),
        channel: "chan".to_string(),
        username: user.to_string(),
        display_name: None,
        content: content.to_string(),
        timestamp: 0,
        user_badges: Vec::new(),
        is_mod,
        is_subscriber: false,
    }
}

fn args(v: &[&str]) -> Vec<String> {
    v.iter().map(|s| s.to_string()).collect()
}

const NOW_MS: u64 = 1_700_000_000_000;

#[test]
fn first_message_earns_the_welcome_bonus_and_the_message() {
    let mut ps = PointsSystem::new();
    ps.process_message_at(&msg("alice", "hi", false), NOW_MS);
    let u = ps.get_user_points("twitch", "alice").unwrap();
    assert_eq!(u.points, 501);
    assert_eq!(u.messages_sent, 1);
}

#[test]
fn ranks_follow_total_earned() {
    let mut u = UserPoints::new_at("twitch".to_string(), "bob".to_string(), None, 0);
    assert_eq!(u.get_rank(), "Newcomer");
    u.add_points_at(5000, 1);
    assert_eq!(u.get_rank(), "Veteran");
}

#[test]
fn rank_boundaries_follow_total_earned() {
    let mut u = UserPoints::new_at("twitch".to_string(), "bob".to_string(), None, 0);
    u.add_points_at(-50, 1);
    assert_eq!(u.total_earned, -50);
    assert_eq!(u.get_rank(), "Mythic");
    u.add_points_at(50, 1);
    assert_eq!(u.get_rank(), "Newcomer");
    u.add_points_at(999, 2);
    assert_eq!(u.get_rank(), "Newcomer");
    u.add_points_at(1, 3);
    assert_eq!(u.get_rank(), "Regular");
}

#[test]
fn spending_keeps_total_earned() {
    let mut u = UserPoints::new_at("twitch".to_string(), "bob".to_string(), None, 0);
    u.add_points_at(100, 1);
    assert!(u.spend_points(40, "prize"));
    assert_eq!((u.points, u.total_earned, u.total_spent), (60, 100, 40));
    assert!(!u.spend_points(61, "prize"));
    assert_eq!((u.points, u.total_earned, u.total_spent), (60, 100, 40));
}

#[test]
fn the_leaderboard_lists_the_top_users() {
    let mut ps = PointsSystem::new();
    for (user, extra) in [("a", 10), ("b", 300), ("c", 50), ("d", 200)] {
        ps.process_message_at(&msg(user, "hi", false), NOW_MS);
        assert!(ps.add_points_at("twitch", user, extra, "test", 1));
    }
    let board = ps.get_leaderboard(2);
    let names: Vec<&str> = board.iter().map(|u| u.username.as_str()).collect();
    assert_eq!(names, vec!["b", "d"]);
    assert_eq!(ps.get_leaderboard(10).len(), 4);
}

#[test]
fn transfer_conserves_points_with_unit_multipliers() {
    let mut ps = PointsSystem::new();
    ps.process_message_at(&msg("alice", "hi", false), NOW_MS);
    ps.process_message_at(&msg("bob", "hi", false), NOW_MS);
    let before = ps.get_user_points("twitch", "alice").unwrap().points + ps.get_user_points("twitch", "bob").unwrap().points;
    assert!(ps.transfer_points_at("twitch", "alice", "twitch", "bob", 100, 1_700_000_001));
    let after = ps.get_user_points("twitch", "alice").unwrap().points + ps.get_user_points("twitch", "bob").unwrap().points;
    assert_eq!(before, after);
    assert!(!ps.transfer_points_at("twitch", "alice", "twitch", "bob", 1_000_000, 1_700_000_001));
}

#[test]
fn points_commands_reply() {
    let mut pc = PointsCommands::new(PointsSystem::new());
    pc.points_system.process_message_at(&msg("alice", "hi", false), NOW_MS);
    let r = pc.process_command_at("points", &args(&[]), &msg("alice", "", false), 1_700_000_000).unwrap();
    assert_eq!(r, "💰 alice, you have 501 points! Rank: Newcomer | Total earned: 501 | Messages: 1 ⭐");
    let r = pc.process_command_at("balance", &args(&["carol"]), &msg("alice", "", false), 1_700_000_000).unwrap();
    assert_eq!(r, "❌ User carol not found. Users earn points by chatting and watching!");
    let r = pc.process_command_at("rank", &args(&[]), &msg("alice", "", false), 1_700_000_000).unwrap();
    assert_eq!(r, "🎖️ alice, your rank is: Newcomer | Points: 501 | Watch time: 0h | Multiplier: 1x ⚡");
    let r = pc.process_command_at("top", &args(&["3"]), &msg("alice", "", false), 1_700_000_000).unwrap();
    assert_eq!(r, "🏆 TOP 3 POINTS LEADERBOARD 🏆 | 🥇1. alice (501 pts) ");
    assert!(pc.process_command_at("other", &args(&[]), &msg("alice", "", false), 1).is_none());
}

#[test]
fn give_refusals() {
    let mut pc = PointsCommands::new(PointsSystem::new());
    let m = msg("alice", "", false);
    assert_eq!(pc.process_command_at("give", &args(&["bob"]), &m, 1).unwrap(),
        "Usage: !give <username> <amount> - Transfer points to another user 💸");
    assert_eq!(pc.process_command_at("give", &args(&["bob", "-5"]), &m, 1).unwrap(), "❌ Please enter a valid positive amount!");
    assert_eq!(pc.process_command_at("give", &args(&["bob", "5"]), &m, 1).unwrap(), "❌ Minimum transfer amount is 10 points!");
    assert_eq!(pc.process_command_at("give", &args(&["ALICE", "50"]), &m, 1).unwrap(), "❌ You can't transfer points to yourself! 🤷");
    assert_eq!(pc.process_command_at("give", &args(&["bob", "50"]), &m, 1).unwrap(),
        "❌ Transfer failed! You might not have enough points or bob doesn't exist.");
}

#[test]
fn addpoints_is_for_moderators() {
    let mut pc = PointsCommands::new(PointsSystem::new());
    pc.points_system.process_message_at(&msg("bob", "hi", false), NOW_MS);
    assert_eq!(pc.process_command_at("addpoints", &args(&["bob", "10"]), &msg("alice", "", false), 1).unwrap(),
        "❌ This command is for moderators only!");
    assert_eq!(pc.process_command_at("addpoints", &args(&["bob", "x"]), &msg("mod", "", true), 1).unwrap(),
        "❌ Please enter a valid amount!");
    assert_eq!(pc.process_command_at("addpoints", &args(&["bob", "10", "good", "job"]), &msg("mod", "", true), 1).unwrap(),
        "✅ Added 10 points to bob! Reason: good job 🎁");
    assert_eq!(pc.points_system.get_user_points("twitch", "bob").unwrap().points, 511);
    assert_eq!(pc.process_command_at("addpoints", &args(&["zed", "10"]), &msg("mod", "", true), 1).unwrap(),
        "❌ Failed to add points to zed. User might not exist.");
}

#[test]
fn spending_and_bonuses_are_announced() {
    let mut pc = PointsCommands::new(PointsSystem::new());
    assert_eq!(pc.get_user_points_string("twitch", "alice"), "0 points");
    assert!(!pc.user_has_points("twitch", "alice", 1));
    pc.points_system.process_message_at(&msg("alice", "hi", false), NOW_MS);
    assert_eq!(pc.get_user_points_string("twitch", "alice"), "501 points");
    assert!(pc.user_has_points("twitch", "alice", 501));
    assert!(!pc.user_has_points("twitch", "alice", 502));
    let (ok, reply) = pc.spend_user_points_at("twitch", "alice", 200, "a song", 1_700_000_001);
    assert!(ok);
    assert_eq!(reply, "✅ alice spent 200 points on a song! 💸");
    let (ok, reply) = pc.spend_user_points_at("twitch", "alice", 1000, "a car", 1_700_000_002);
    assert!(!ok);
    assert_eq!(reply, "❌ alice doesn't have enough points! Need: 1000 💔");
    assert_eq!(pc.get_user_points_string("twitch", "alice"), "301 points");
    assert_eq!(pc.award_bonus_points_at("twitch", "alice", 50, "helping", 1_700_000_003),
        Some("🎉 alice earned 50 bonus points for helping! 🌟".to_string()));
    assert_eq!(pc.get_user_points_string("twitch", "alice"), "351 points");
    assert_eq!(pc.award_bonus_points_at("twitch", "nobody", 50, "x", 1_700_000_003), None);
}
