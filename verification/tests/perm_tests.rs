use guildbot::config::Config;
use guildbot::dispatch::Member;

fn config_with(perms: Vec<(String, Vec<String>)>) -> Config {
    Config {
        cmd_prefix: "!".to_string(),
        member_role: 0,
        casual_role: 0,
        comp_role: 0,
        vote_minutes: 1440,
        channel_announce: 0,
        channel_vote: 0,
        permissions: perms,
    }
}

#[test]
fn role_granting_permission_passes() {
    let cfg = config_with(vec![("42".to_string(), vec!["bot.ping".to_string()])]);
    let member = Member { roles: vec![42] };
    assert!(cfg.user_has_perm(&member, "bot.ping"));
}

#[test]
fn member_without_roles_has_nothing() {
    let cfg = config_with(vec![("42".to_string(), vec!["bot.ping".to_string()])]);
    let member = Member { roles: Vec::new() };
    assert!(!cfg.user_has_perm(&member, "bot.ping"));
}

#[test]
fn role_not_in_table_grants_nothing() {
    let cfg = config_with(vec![("42".to_string(), vec!["bot.ping".to_string()])]);
    let member = Member { roles: vec![7] };
    assert!(!cfg.user_has_perm(&member, "bot.ping"));
}

#[test]
fn role_with_other_permissions_does_not_match() {
    let cfg = config_with(vec![("42".to_string(), vec!["bot.kick".to_string()])]);
    let member = Member { roles: vec![42] };
    assert!(!cfg.user_has_perm(&member, "bot.ping"));
}

#[test]
fn any_of_several_roles_suffices() {
    let cfg = config_with(vec![
        ("1".to_string(), vec!["bot.kick".to_string()]),
        ("2".to_string(), vec!["bot.ping".to_string()]),
    ]);
    let member = Member { roles: vec![1, 2] };
    assert!(cfg.user_has_perm(&member, "bot.ping"));
}

#[test]
fn membership_is_exact_not_prefix() {
    let cfg = config_with(vec![("42".to_string(), vec!["bot.ping.extra".to_string()])]);
    let member = Member { roles: vec![42] };
    assert!(!cfg.user_has_perm(&member, "bot.ping"));
}

#[test]
fn large_role_identifier_is_rendered_in_decimal() {
    let cfg = config_with(vec![(
        "18446744073709551615".to_string(),
        vec!["bot.ping".to_string()],
    )]);
    let member = Member { roles: vec![u64::MAX] };
    assert!(cfg.user_has_perm(&member, "bot.ping"));
}
