use notabot::bot::giveaways::{
    determine_user_level, keyword_matches, read_typed_number, select_weighted, select_winner, validate_giveaway_config,
    ActiveGiveaway, EntryDecision, GiveawayCommands, GiveawayError, GiveawaySettings, GiveawaySystem, GiveawayType,
    UserLevel, process_giveaway_message,
};
use notabot::bot::giveaways::GiveawayCommandOutcome;
use notabot::bot::types::ChatMessage;

fn settings() -> GiveawaySettings {
    GiveawaySettings {
        eligible_user_levels: vec![UserLevel::Viewer, UserLevel::Subscriber, UserLevel::Moderator],
        subscriber_luck_multiplier: 2000,
        regular_luck_multiplier: 1500,
        max_fraud_score: 700,
    }
}

fn msg(user: &str, content: &str) -> ChatMessage {
    ChatMessage {
        platform: "twitch".to_string(),
        channel: "chan".to_string(),
        username: user.to_string(),
        display_name: None,
        content: content.to_string(),
        timestamp: 0,
        user_badges: Vec::new(),
        is_mod: false,
        is_subscriber: false,
    }
}

#[test]
fn configuration_is_validated() {
    let ok = GiveawayType::ActiveUser { duration_minutes: 10, min_messages: None };
    assert!(validate_giveaway_config(&ok, &settings()).is_ok());
    let long = GiveawayType::ActiveUser { duration_minutes: 2000, min_messages: None };
    assert!(matches!(validate_giveaway_config(&long, &settings()),
        Err(GiveawayError::InvalidConfiguration { reason }) if reason == "Duration must be between 1 and 1440 minutes"));
    let range = GiveawayType::RandomNumber { min: 5, max: 5, auto_generate: true };
    assert!(matches!(validate_giveaway_config(&range, &settings()),
        Err(GiveawayError::InvalidConfiguration { reason }) if reason == "Minimum must be less than maximum"));
    let blank = GiveawayType::Keyword { keyword: "  ".to_string(), case_sensitive: false, anti_spam: true, max_entries_per_user: None };
    assert!(matches!(validate_giveaway_config(&blank, &settings()),
        Err(GiveawayError::InvalidConfiguration { reason }) if reason == "Keyword cannot be empty"));
    let mut s = settings();
    s.subscriber_luck_multiplier = 500;
    assert!(matches!(validate_giveaway_config(&ok, &s),
        Err(GiveawayError::InvalidConfiguration { reason }) if reason == "Subscriber luck multiplier must be between 1.0 and 10.0"));
}

#[test]
fn levels_come_from_badges_and_flags() {
    let mut m = msg("a", "");
    assert_eq!(determine_user_level(&m, false), UserLevel::Viewer);
    assert_eq!(determine_user_level(&m, true), UserLevel::Regular);
    m.is_subscriber = true;
    assert_eq!(determine_user_level(&m, false), UserLevel::Subscriber);
    m.user_badges = vec!["vip".to_string()];
    assert_eq!(determine_user_level(&m, false), UserLevel::VIP);
    m.is_mod = true;
    assert_eq!(determine_user_level(&m, false), UserLevel::Moderator);
    m.user_badges = vec!["broadcaster".to_string()];
    assert_eq!(determine_user_level(&m, false), UserLevel::Owner);
}

#[test]
fn keywords_and_numbers() {
    assert!(keyword_matches("I want the PRIZE now", "prize", false));
    assert!(!keyword_matches("I want the PRIZE now", "prize", true));
    assert_eq!(read_typed_number("  42 "), Some(42));
    assert_eq!(read_typed_number("+7"), Some(7));
    assert_eq!(read_typed_number("4 2"), None);
    assert_eq!(read_typed_number("99999999999"), None);
}

#[test]
fn weighted_tickets_fall_to_their_holders() {
    let w = vec![2, 0, 3];
    assert_eq!(select_weighted(&w, 1), 0);
    assert_eq!(select_weighted(&w, 2), 0);
    assert_eq!(select_weighted(&w, 3), 2);
    assert_eq!(select_weighted(&w, 5), 2);
    assert!(matches!(select_winner(&vec![]), Err(GiveawayError::WinnerSelectionFailed { reason }) if reason == "No eligible users"));
    assert!(matches!(select_winner(&vec![0, 0]), Err(GiveawayError::WinnerSelectionFailed { reason }) if reason == "No valid entries"));
    for _ in 0..20 {
        assert_eq!(select_winner(&vec![0, 4, 0]).ok(), Some(1));
    }
}

#[test]
fn keyword_entries_count_once_with_anti_spam() {
    let t = GiveawayType::Keyword { keyword: "win".to_string(), case_sensitive: false, anti_spam: true, max_entries_per_user: Some(1) };
    let mut g = ActiveGiveaway::new(t, settings(), "mod".to_string(), "chan".to_string(), "twitch".to_string(), 0);
    assert!(matches!(process_giveaway_message(&mut g, &msg("a", "I WIN"), UserLevel::Viewer, 0, 1), EntryDecision::KeywordEntry));
    assert!(matches!(process_giveaway_message(&mut g, &msg("A", "win again"), UserLevel::Viewer, 0, 2), EntryDecision::Ignore));
    assert!(matches!(process_giveaway_message(&mut g, &msg("b", "nothing"), UserLevel::Viewer, 0, 2), EntryDecision::Ignore));
    assert!(matches!(process_giveaway_message(&mut g, &msg("c", "win"), UserLevel::Viewer, 900, 2), EntryDecision::Ignore));
    assert!(matches!(process_giveaway_message(&mut g, &msg("d", "win"), UserLevel::VIP, 0, 2), EntryDecision::Ignore));
    assert_eq!(g.participants.len(), 1);
}

#[test]
fn timed_giveaway_closes() {
    let t = GiveawayType::ActiveUser { duration_minutes: 1, min_messages: None };
    let mut g = ActiveGiveaway::new(t, settings(), "mod".to_string(), "chan".to_string(), "all".to_string(), 100);
    assert!(matches!(process_giveaway_message(&mut g, &msg("a", "hey"), UserLevel::Viewer, 0, 159), EntryDecision::MarkEligible));
    assert!(matches!(process_giveaway_message(&mut g, &msg("b", "hey"), UserLevel::Viewer, 0, 160), EntryDecision::Ignore));
}

#[test]
fn start_command_announces_and_refuses_a_second_giveaway() {
    let mut gc = GiveawayCommands::new(GiveawaySystem::new(settings()));
    let m = msg("mod", "");
    let a: Vec<String> = vec!["active".to_string(), "15".to_string()];
    assert_eq!(gc.handle_start_giveaway_at(&a, &m, 10),
        "Active User Giveaway started! Chat within 15 minutes to be eligible. Good luck!");
    assert_eq!(gc.handle_start_giveaway_at(&a, &m, 10), "Failed to start giveaway: A giveaway is already active");
    assert_eq!(gc.giveaway_system.total_giveaways, 1);
    let mut gc = GiveawayCommands::new(GiveawaySystem::new(settings()));
    let r = gc.handle_start_giveaway_at(&vec!["number".to_string(), "3".to_string(), "3".to_string()], &m, 10);
    assert_eq!(r, "Failed to start giveaway: Invalid giveaway configuration: Minimum must be less than maximum");
    assert_eq!(gc.handle_start_giveaway_at(&vec!["keyword".to_string()], &m, 10), "Usage: !gstart keyword <word>");
    assert_eq!(gc.handle_start_giveaway_at(&vec!["raffle".to_string()], &m, 10),
        "Invalid giveaway type. Use: active, keyword, or number");
    let r = gc.handle_start_giveaway_at(&vec!["number".to_string(), "1".to_string(), "1".to_string()], &m, 10);
    assert!(r.starts_with("Failed"));
    let r = gc.handle_start_giveaway_at(&vec!["number".to_string(), "7".to_string(), "8".to_string()], &m, 10);
    assert!(r == "Random Number Giveaway! First person to type 7 wins! (Range: 7-8)"
        || r == "Random Number Giveaway! First person to type 8 wins! (Range: 7-8)");
}

fn modmsg(user: &str) -> ChatMessage {
    let mut m = msg(user, "");
    m.is_mod = true;
    m
}

fn keyword_system() -> GiveawaySystem {
    let mut s = GiveawaySystem::new(settings());
    let t = GiveawayType::Keyword { keyword: "win".to_string(), case_sensitive: false, anti_spam: true, max_entries_per_user: Some(1) };
    assert!(s.start_giveaway_at(t, "mod".to_string(), "chan".to_string(), "twitch".to_string(), None, 100).is_ok());
    s
}

#[test]
fn system_feeds_messages_to_the_running_giveaway() {
    let mut idle = GiveawaySystem::new(settings());
    assert!(idle.process_message(&msg("a", "win"), false, 1).is_none());
    let mut s = keyword_system();
    assert!(matches!(s.process_message(&msg("a", "win"), false, 101), Some(EntryDecision::KeywordEntry)));
    assert!(matches!(s.process_message(&msg("b", "lose"), false, 101), Some(EntryDecision::Ignore)));
    let mut other = msg("c", "win");
    other.channel = "elsewhere".to_string();
    assert!(matches!(s.process_message(&other, false, 101), Some(EntryDecision::Ignore)));
    assert_eq!(s.active_giveaway.as_ref().unwrap().participants.len(), 1);
}

#[test]
fn ending_draws_among_the_eligible_and_counts() {
    let mut s = keyword_system();
    s.process_message(&msg("a", "win"), false, 101);
    s.process_message(&msg("b", "win"), false, 102);
    let w = s.end_giveaway(false, &vec![0, 5]).unwrap().unwrap();
    assert_eq!(w.username, "b");
    assert_eq!(w.entries, 5);
    assert!(s.active_giveaway.is_none());
    assert_eq!((s.successful_giveaways, s.cancelled_giveaways, s.total_participants), (1, 0, 2));
    assert!(matches!(s.end_giveaway(false, &vec![]), Err(GiveawayError::NoActiveGiveaway)));
    let mut s = keyword_system();
    assert!(matches!(s.end_giveaway(false, &vec![]), Ok(None)));
    assert_eq!(s.cancelled_giveaways, 1);
    let mut s = keyword_system();
    assert!(s.cancel_giveaway().is_ok());
    assert!(matches!(s.cancel_giveaway(), Err(GiveawayError::NoActiveGiveaway)));
}

#[test]
fn eligibility_is_toggled_and_reset_by_hand() {
    let mut s = keyword_system();
    s.process_message(&msg("a", "win"), false, 101);
    assert_eq!(s.toggle_user_eligibility("twitch", "A").ok(), Some(false));
    assert_eq!(s.toggle_user_eligibility("twitch", "a").ok(), Some(true));
    assert_eq!(s.toggle_user_eligibility("twitch", "zed").ok(), Some(true));
    let g = s.active_giveaway.as_ref().unwrap();
    assert_eq!(g.participants.len(), 2);
    assert!(g.participants[1].manual_override);
    assert_eq!(s.reset_eligibility().ok(), Some(2));
    assert!(s.active_giveaway.as_ref().unwrap().participants.iter().all(|p| !p.eligible));
    let mut idle = GiveawaySystem::new(settings());
    assert!(matches!(idle.toggle_user_eligibility("twitch", "a"), Err(GiveawayError::NoActiveGiveaway)));
    assert!(matches!(idle.reset_eligibility(), Err(GiveawayError::NoActiveGiveaway)));
}

#[test]
fn numbers_are_redrawn_only_for_number_giveaways() {
    let mut s = keyword_system();
    assert!(matches!(s.generate_random_number(1, 5),
        Err(GiveawayError::InvalidConfiguration { reason }) if reason == "Not a random number giveaway"));
    let mut s = GiveawaySystem::new(settings());
    let t = GiveawayType::RandomNumber { min: 1, max: 50, auto_generate: false };
    assert!(s.start_giveaway_at(t, "m".to_string(), "chan".to_string(), "twitch".to_string(), None, 0).is_ok());
    let n = s.generate_random_number(3, 4).unwrap();
    assert!(n == 3 || n == 4);
    assert_eq!(s.active_giveaway.as_ref().unwrap().generated_number, Some(n));
}

#[test]
fn default_settings_are_checked_before_use() {
    let mut s = GiveawaySystem::new(settings());
    let mut bad = settings();
    bad.eligible_user_levels = Vec::new();
    assert!(matches!(s.update_default_settings(bad),
        Err(GiveawayError::InvalidConfiguration { reason }) if reason == "No eligible user levels specified"));
    let mut good = settings();
    good.max_fraud_score = 100;
    assert!(s.update_default_settings(good).is_ok());
    assert_eq!(s.default_settings.max_fraud_score, 100);
}

#[test]
fn status_line_reports_entries_and_time() {
    let mut gc = GiveawayCommands::new(GiveawaySystem::new(settings()));
    assert_eq!(gc.handle_giveaway_status(0, &vec![]), "No active giveaway. Use !gstart to begin one!");
    gc.handle_start_giveaway_at(&vec!["active".to_string(), "2".to_string()], &modmsg("m"), 1000);
    gc.giveaway_system.process_message(&msg("a", "hi"), false, 1010);
    assert_eq!(gc.handle_giveaway_status(1030, &vec![3]),
        "Giveaway Status: Active User (2min) | 1 participants | 3 total entries | 90s remaining");
    assert_eq!(gc.handle_giveaway_status(5000, &vec![3]),
        "Giveaway Status: Active User (2min) | 1 participants | 3 total entries | Time expired");
    let info = gc.giveaway_system.get_giveaway_status(1030, &vec![3]).unwrap();
    assert_eq!((info.participant_count, info.eligible_users_count, info.total_entries), (1, 1, 3));
    assert_eq!(info.time_remaining, Some(90));
}

#[test]
fn giveaway_commands_are_for_moderators() {
    let mut gc = GiveawayCommands::new(GiveawaySystem::new(settings()));
    let viewer = msg("v", "");
    let none: Vec<String> = Vec::new();
    let reply = |o: GiveawayCommandOutcome| match o {
        GiveawayCommandOutcome::Reply(r) => r,
        _ => String::new(),
    };
    assert_eq!(reply(gc.process_command("gstart", &none, &viewer, 0, &vec![])), "Only moderators can start giveaways.");
    assert_eq!(reply(gc.process_command("gend", &none, &viewer, 0, &vec![])), "Only moderators can end giveaways.");
    assert_eq!(reply(gc.process_command("gstats", &none, &viewer, 0, &vec![])),
        "Only moderators can view giveaway statistics.");
    assert!(matches!(gc.process_command("gstats", &none, &modmsg("m"), 0, &vec![]), GiveawayCommandOutcome::ShowStatistics));
    assert!(matches!(gc.process_command("hello", &none, &viewer, 0, &vec![]), GiveawayCommandOutcome::NotHandled));
    assert_eq!(reply(gc.process_command("gcancel", &none, &modmsg("m"), 0, &vec![])),
        "Failed to cancel giveaway: No active giveaway");
    let kw = vec!["keyword".to_string(), "win".to_string()];
    assert_eq!(reply(gc.process_command("gstart", &kw, &modmsg("m"), 0, &vec![])),
        "Keyword Giveaway started! Type 'win' to enter. One entry per person!");
    assert_eq!(reply(gc.process_command("geligible", &vec!["Bob".to_string()], &modmsg("m"), 0, &vec![])),
        "User Bob is now eligible");
    assert_eq!(reply(gc.process_command("geligible", &vec!["Bob".to_string()], &modmsg("m"), 0, &vec![1])),
        "User Bob is now ineligible");
    assert_eq!(reply(gc.process_command("greset", &none, &modmsg("m"), 0, &vec![1])), "Reset eligibility for 1 users");
    assert_eq!(reply(gc.process_command("gend", &none, &modmsg("m"), 0, &vec![])),
        "Giveaway ended but no winner was selected (no eligible users)");
    assert_eq!(reply(gc.process_command("gend", &none, &modmsg("m"), 0, &vec![])),
        "Failed to end giveaway: No active giveaway");
    gc.process_command("gstart", &kw, &modmsg("m"), 0, &vec![]);
    gc.giveaway_system.process_message(&msg("ann", "win"), false, 1);
    assert_eq!(reply(gc.process_command("gend", &none, &modmsg("m"), 0, &vec![4])),
        "Giveaway ended! Winner: ann from twitch! Congratulations! ");
    gc.process_command("gstart", &kw, &modmsg("m"), 0, &vec![]);
    assert_eq!(reply(gc.process_command("gcancel", &none, &modmsg("m"), 0, &vec![])), "Giveaway cancelled by moderator");
}

#[test]
fn every_ticket_holder_can_win() {
    let mut seen = [false, false];
    for _ in 0..64 {
        let w = select_winner(&vec![5, 5]).ok().unwrap();
        seen[w] = true;
    }
    assert!(seen[0] && seen[1]);
}

#[test]
fn fraud_scores_keep_suspects_out() {
    let mut s = keyword_system();
    assert_eq!(s.get_fraud_score("twitch", "Eve"), 0);
    s.set_fraud_score("twitch", "Eve", 5000);
    assert_eq!(s.get_fraud_score("twitch", "eve"), 1000);
    assert!(matches!(s.process_message(&msg("eve", "win"), false, 101), Some(EntryDecision::Ignore)));
    s.set_fraud_score("twitch", "eve", 100);
    assert!(matches!(s.process_message(&msg("eve", "win"), false, 102), Some(EntryDecision::KeywordEntry)));
}
