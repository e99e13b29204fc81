use guildbot::command::{Command, Effect, Outcome};
use guildbot::config::Config;
use guildbot::dispatch::{get_args, get_label, plan_dispatch, Dispatch, Member, Message};
use guildbot::error::Error;

fn config_with(perms: Vec<(String, Vec<String>)>) -> Config {
    Config {
        cmd_prefix: "!".to_string(),
        member_role: 0,
        casual_role: 0,
        comp_role: 0,
        vote_minutes: 1440,
        channel_announce: 0,
        channel_vote: 0,
        permissions: perms,
    }
}

fn ping_command() -> Command {
    Command {
        label: "ping".to_string(),
        desc: "pong".to_string(),
        help: "Syntax: `ping`".to_string(),
        perm: "bot.ping".to_string(),
    }
}

fn guild_message(content: &str, roles: Vec<u64>) -> Message {
    Message {
        content: content.to_string(),
        channel_id: 7,
        member: Some(Member { roles }),
    }
}

#[test]
fn label_strips_prefix() {
    let cfg = config_with(Vec::new());
    let msg = guild_message("!ping one two", vec![]);
    assert_eq!(get_label(&msg, &cfg), "ping");
}

#[test]
fn label_strips_prefix_once_only() {
    let cfg = config_with(Vec::new());
    let msg = guild_message("!!ping", vec![]);
    assert_eq!(get_label(&msg, &cfg), "!ping");
}

#[test]
fn label_of_bare_word() {
    let cfg = config_with(Vec::new());
    let msg = guild_message("ping", vec![]);
    assert_eq!(get_label(&msg, &cfg), "ping");
}

#[test]
fn label_of_prefix_alone_is_empty() {
    let cfg = config_with(Vec::new());
    let msg = guild_message("!", vec![]);
    assert_eq!(get_label(&msg, &cfg), "");
}

#[test]
fn args_after_label() {
    let msg = guild_message("!kick one two", vec![]);
    assert_eq!(get_args(&msg), vec!["one", "two"]);
}

#[test]
fn args_of_bare_command_are_empty() {
    let msg = guild_message("!ping", vec![]);
    assert!(get_args(&msg).is_empty());
}

#[test]
fn args_keep_empty_segments() {
    let msg = guild_message("!a  b", vec![]);
    assert_eq!(get_args(&msg), vec!["", "b"]);
}

#[test]
fn authorized_sender_invokes_handler_once() {
    let cfg = config_with(vec![("1".to_string(), vec!["bot.ping".to_string()])]);
    let commands = vec![ping_command()];
    let msg = guild_message("!ping", vec![1]);
    match plan_dispatch(&cfg, &commands, &msg) {
        Dispatch::Invoke(v) => assert_eq!(v, vec![0]),
        _ => panic!("expected an invocation"),
    }
    // The handler reports success: no reply, no log entry.
    assert!(matches!(commands[0].exec(Outcome::Success), Effect::Silent));
}

#[test]
fn unauthorized_sender_never_invokes() {
    let cfg = config_with(vec![("1".to_string(), vec!["bot.other".to_string()])]);
    let commands = vec![ping_command()];
    let msg = guild_message("!ping", vec![1]);
    match plan_dispatch(&cfg, &commands, &msg) {
        Dispatch::Invoke(v) => assert!(v.is_empty()),
        _ => panic!("expected an empty invocation list"),
    }
}

#[test]
fn unprefixed_message_is_ignored() {
    let cfg = config_with(vec![("1".to_string(), vec!["bot.ping".to_string()])]);
    let commands = vec![ping_command()];
    let msg = guild_message("hello", vec![1]);
    assert!(matches!(plan_dispatch(&cfg, &commands, &msg), Dispatch::NotCommand));
}

#[test]
fn message_without_member_is_ignored() {
    let cfg = config_with(vec![("1".to_string(), vec!["bot.ping".to_string()])]);
    let commands = vec![ping_command()];
    let msg = Message { content: "!ping".to_string(), channel_id: 7, member: None };
    assert!(matches!(plan_dispatch(&cfg, &commands, &msg), Dispatch::NoSender));
}

#[test]
fn syntax_error_replies_with_help() {
    let cmd = ping_command();
    match cmd.exec(Outcome::SyntaxError) {
        Effect::Reply(text) => assert_eq!(text, "Syntax: `ping`"),
        _ => panic!("a syntax error must reply with the help text"),
    }
}

#[test]
fn invalid_argument_replies_with_explanation() {
    let cmd = ping_command();
    match cmd.exec(Outcome::InvalidArgument("no such user".to_string())) {
        Effect::Reply(text) => assert_eq!(text, "no such user"),
        _ => panic!("an invalid argument must reply with its explanation"),
    }
}

#[test]
fn internal_failure_is_logged_not_replied() {
    let cmd = ping_command();
    match cmd.exec(Outcome::Failure(Error::Discord)) {
        Effect::Log(label, err) => {
            assert_eq!(label, "ping");
            assert!(matches!(err, Error::Discord));
        }
        _ => panic!("an internal failure must be logged under the label"),
    }
}

#[test]
fn duplicate_labels_all_fire() {
    let cfg = config_with(vec![(
        "1".to_string(),
        vec!["bot.first".to_string(), "bot.second".to_string()],
    )]);
    let commands = vec![
        Command {
            label: "dup".to_string(),
            desc: "first".to_string(),
            help: "first help".to_string(),
            perm: "bot.first".to_string(),
        },
        Command {
            label: "dup".to_string(),
            desc: "second".to_string(),
            help: "second help".to_string(),
            perm: "bot.second".to_string(),
        },
    ];
    let msg = guild_message("!dup", vec![1]);
    match plan_dispatch(&cfg, &commands, &msg) {
        Dispatch::Invoke(v) => assert_eq!(v, vec![0, 1]),
        _ => panic!("both duplicate-label commands must fire"),
    }
}

#[test]
fn prefix_alone_matches_no_command() {
    let cfg = config_with(vec![("1".to_string(), vec!["bot.ping".to_string()])]);
    let commands = vec![ping_command()];
    let msg = guild_message("!", vec![1]);
    match plan_dispatch(&cfg, &commands, &msg) {
        Dispatch::Invoke(v) => assert!(v.is_empty()),
        _ => panic!("an empty label matches no command"),
    }
}

#[test]
fn only_matching_label_fires() {
    let cfg = config_with(vec![(
        "1".to_string(),
        vec!["bot.ping".to_string(), "bot.kick".to_string()],
    )]);
    let commands = vec![
        ping_command(),
        Command {
            label: "kick".to_string(),
            desc: "kick".to_string(),
            help: "Syntax: `kick <user>`".to_string(),
            perm: "bot.kick".to_string(),
        },
    ];
    let msg = guild_message("!kick someone", vec![1]);
    match plan_dispatch(&cfg, &commands, &msg) {
        Dispatch::Invoke(v) => assert_eq!(v, vec![1]),
        _ => panic!("exactly the kick command must fire"),
    }
}
