use notabot::bot::commands::{parse_command, CommandSystem, BotCommand};
use notabot::bot::types::ChatMessage;

fn msg(content: &str, is_mod: bool) -> ChatMessage {
    ChatMessage {
        platform: "twitch".to_string(),
        channel: "chan".to_string(),
        username: "alice".to_string(),
        display_name: None,
        content: content.to_string(),
        timestamp: 0,
        user_badges: Vec::new(),
        is_mod,
        is_subscriber: false,
    }
}

#[test]
fn parses_command_name_lowercased_and_arguments() {
    let (name, args) = parse_command("!HeLLo  world  again", "!").unwrap();
    assert_eq!(name, "hello");
    assert_eq!(args, vec!["world".to_string(), "again".to_string()]);
    assert!(parse_command("hello", "!").is_none());
    assert!(parse_command("!   ", "!").is_none());
}

#[test]
fn response_variables_are_filled_in() {
    let mut m = msg("!hi", false);
    m.display_name = Some("Alice".to_string());
    let r = CommandSystem::process_command_response("hi $(user) aka $(displayname) in $(channel) on $(platform)", &m);
    assert_eq!(r, "hi alice aka Alice in chan on twitch");
}

#[test]
fn command_runs_then_cools_down() {
    let mut cs = CommandSystem::new();
    cs.add_command("hi".to_string(), "hello $(user)".to_string(), false, 30);
    let m = msg("!hi", false);
    let first = cs.process_message_at(&m, 1000).unwrap();
    assert_eq!(first, ("twitch".to_string(), "chan".to_string(), "hello alice".to_string()));
    assert!(cs.process_message_at(&m, 1010).is_none());
    assert!(cs.process_message_at(&m, 1030).is_some());
}

#[test]
fn mod_only_command_needs_a_moderator() {
    let mut cs = CommandSystem::new();
    cs.add_command("ban".to_string(), "banned".to_string(), true, 0);
    assert!(cs.process_message_at(&msg("!ban", false), 5).is_none());
    assert!(cs.process_message_at(&msg("!ban", true), 5).is_some());
    assert!(cs.process_message_at(&msg("!unknown", true), 5).is_none());
}

#[test]
fn custom_prefix_is_used() {
    let mut cs = CommandSystem::new();
    cs.set_command_prefix("?".to_string());
    cs.add_command("hi".to_string(), "x".to_string(), false, 0);
    assert!(cs.process_message_at(&msg("!hi", false), 5).is_none());
    assert!(cs.process_message_at(&msg("?hi", false), 5).is_some());
}

#[test]
fn can_execute_checks_moderators_and_its_own_cooldown_key() {
    let cs = CommandSystem::new();
    let cmd = BotCommand { trigger: "x".to_string(), response: "y".to_string(), mod_only: true, cooldown_seconds: 10 };
    assert!(!cs.can_execute_command_at(&cmd, &msg("", false), 0));
    assert!(cs.can_execute_command_at(&cmd, &msg("", true), 0));
}

#[test]
fn can_execute_sees_the_cooldown_that_running_sets() {
    let mut cs = CommandSystem::new();
    cs.add_command("hi".to_string(), "hello".to_string(), false, 60);
    let cmd = BotCommand { trigger: "hi".to_string(), response: "hello".to_string(), mod_only: false, cooldown_seconds: 60 };
    assert!(cs.can_execute_command_at(&cmd, &msg("", false), 1000));
    assert!(cs.process_message_at(&msg("!hi", false), 1000).is_some());
    assert!(!cs.can_execute_command_at(&cmd, &msg("", false), 1030));
    assert!(cs.can_execute_command_at(&cmd, &msg("", false), 1060));
    let mut elsewhere = msg("", false);
    elsewhere.channel = "other".to_string();
    assert!(cs.can_execute_command_at(&cmd, &elsewhere, 1030));
}

#[test]
fn argument_variables_are_filled_in() {
    let mut m = msg("!echo hi", false);
    m.username = "bob".to_string();
    assert_eq!(CommandSystem::process_command_response("You said $(1) to $(user)", &m), "You said hi to bob");
    let m2 = msg("!echo  one two   three", false);
    assert_eq!(
        CommandSystem::process_command_response("[$(args)] [$(1)] [$(2)]", &m2),
        "[one two three] [one] [two]"
    );
    let m3 = msg("!echo", false);
    assert_eq!(CommandSystem::process_command_response("[$(args)|$(1)|$(2)]", &m3), "[||]");
}

#[test]
fn running_a_command_fills_in_its_arguments() {
    let mut cs = CommandSystem::new();
    cs.add_command("echo".to_string(), "You said $(1) to $(user)".to_string(), false, 0);
    let mut m = msg("!echo hi", false);
    m.username = "bob".to_string();
    assert_eq!(cs.process_message_at(&m, 1).unwrap().2, "You said hi to bob");
}

#[test]
fn help_text_travels_with_the_response() {
    let mut cs = CommandSystem::new();
    cs.add_command_with_args("so".to_string(), "go follow $(user)".to_string(), false, 0, Some("shout out".to_string()));
    let r = cs.process_message_at(&msg("!so", false), 1).unwrap();
    assert_eq!(r.2, "go follow alice|HELP:shout out");
    cs.add_command_with_args("so".to_string(), "plain".to_string(), false, 0, None);
    assert_eq!(cs.process_message_at(&msg("!so", false), 2).unwrap().2, "plain");
}
