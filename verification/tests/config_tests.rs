use guildbot::config::{load_config, Config, FileRead, Startup};
use guildbot::error::{Error, IoKind};

fn sample_config() -> Config {
    Config {
        cmd_prefix: "!".to_string(),
        member_role: 11,
        casual_role: 22,
        comp_role: 33,
        vote_minutes: 1440,
        channel_announce: 44,
        channel_vote: 55,
        permissions: vec![
            ("11".to_string(), vec!["bot.ping".to_string(), "bot.kick".to_string()]),
            ("22".to_string(), vec!["bot.ping".to_string()]),
        ],
    }
}

fn assert_configs_equal(a: &Config, b: &Config) {
    assert_eq!(a.cmd_prefix, b.cmd_prefix);
    assert_eq!(a.member_role, b.member_role);
    assert_eq!(a.casual_role, b.casual_role);
    assert_eq!(a.comp_role, b.comp_role);
    assert_eq!(a.vote_minutes, b.vote_minutes);
    assert_eq!(a.channel_announce, b.channel_announce);
    assert_eq!(a.channel_vote, b.channel_vote);
    assert_eq!(a.permissions.len(), b.permissions.len());
    for (key, group) in a.permissions.iter() {
        let other = b
            .permissions
            .iter()
            .find(|(k, _)| k == key)
            .expect("missing permission key");
        assert_eq!(group, &other.1);
    }
}

#[test]
fn save_then_load_round_trips() {
    let config = sample_config();
    let text = config.save().expect("save failed");
    let loaded = Config::load(&text).expect("load failed");
    assert_configs_equal(&config, &loaded);
}

#[test]
fn save_then_load_round_trips_empty_permissions() {
    let mut config = sample_config();
    config.permissions = Vec::new();
    let text = config.save().expect("save failed");
    let loaded = Config::load(&text).expect("load failed");
    assert_configs_equal(&config, &loaded);
}

#[test]
fn load_reads_every_field() {
    let text = "cmd_prefix = \"?\"\n\
                member_role = 1\n\
                casual_role = 2\n\
                comp_role = 3\n\
                vote_minutes = 60\n\
                channel_announce = 4\n\
                channel_vote = 5\n\
                [permissions]\n\
                \"1\" = [\"bot.ping\"]\n";
    let loaded = Config::load(text).expect("load failed");
    assert_eq!(loaded.cmd_prefix, "?");
    assert_eq!(loaded.member_role, 1);
    assert_eq!(loaded.casual_role, 2);
    assert_eq!(loaded.comp_role, 3);
    assert_eq!(loaded.vote_minutes, 60);
    assert_eq!(loaded.channel_announce, 4);
    assert_eq!(loaded.channel_vote, 5);
    assert_eq!(loaded.permissions, vec![("1".to_string(), vec!["bot.ping".to_string()])]);
}

#[test]
fn load_rejects_invalid_toml_as_deserialization() {
    let r = Config::load("][ this is not toml");
    assert!(matches!(r, Err(Error::TomlDeserialize)));
}

#[test]
fn load_rejects_missing_field() {
    // channel_vote is absent: no default may be filled in.
    let text = "cmd_prefix = \"!\"\n\
                member_role = 1\n\
                casual_role = 2\n\
                comp_role = 3\n\
                vote_minutes = 60\n\
                channel_announce = 4\n\
                [permissions]\n";
    assert!(matches!(Config::load(text), Err(Error::TomlDeserialize)));
}

#[test]
fn load_rejects_mistyped_field() {
    let text = "cmd_prefix = 5\n\
                member_role = 1\n\
                casual_role = 2\n\
                comp_role = 3\n\
                vote_minutes = 60\n\
                channel_announce = 4\n\
                channel_vote = 5\n\
                [permissions]\n";
    assert!(matches!(Config::load(text), Err(Error::TomlDeserialize)));
}

#[test]
fn load_rejects_negative_identifier() {
    let text = "cmd_prefix = \"!\"\n\
                member_role = -1\n\
                casual_role = 2\n\
                comp_role = 3\n\
                vote_minutes = 60\n\
                channel_announce = 4\n\
                channel_vote = 5\n\
                [permissions]\n";
    assert!(matches!(Config::load(text), Err(Error::TomlDeserialize)));
}

#[test]
fn load_rejects_mistyped_permission_group() {
    let text = "cmd_prefix = \"!\"\n\
                member_role = 1\n\
                casual_role = 2\n\
                comp_role = 3\n\
                vote_minutes = 60\n\
                channel_announce = 4\n\
                channel_vote = 5\n\
                [permissions]\n\
                \"1\" = [1, 2]\n";
    assert!(matches!(Config::load(text), Err(Error::TomlDeserialize)));
}

#[test]
fn save_rejects_identifier_beyond_toml_integer_range() {
    let mut config = sample_config();
    config.member_role = u64::MAX;
    assert!(matches!(config.save(), Err(Error::TomlSerialize)));
}

#[test]
fn default_config_fields() {
    let c = Config::default();
    assert_eq!(c.cmd_prefix, "!");
    assert_eq!(c.member_role, 0);
    assert_eq!(c.casual_role, 0);
    assert_eq!(c.comp_role, 0);
    assert_eq!(c.vote_minutes, 1440);
    assert_eq!(c.channel_announce, 0);
    assert_eq!(c.channel_vote, 0);
    assert!(c.permissions.is_empty());
}

#[test]
fn missing_file_heals_with_default() {
    match load_config(FileRead::Missing) {
        Startup::WriteDefault(c, text) => {
            assert_configs_equal(&c, &Config::default());
            let reloaded = Config::load(&text).expect("written default must load");
            assert_configs_equal(&reloaded, &Config::default());
        }
        _ => panic!("missing file must heal with the default"),
    }
}

#[test]
fn found_valid_file_is_used() {
    let text = sample_config().save().expect("save failed");
    match load_config(FileRead::Found(text)) {
        Startup::Ready(c) => assert_configs_equal(&c, &sample_config()),
        _ => panic!("valid file must be used"),
    }
}

#[test]
fn found_corrupt_file_is_fatal() {
    let r = load_config(FileRead::Found("][ not toml".to_string()));
    assert!(matches!(r, Startup::Abort(Error::TomlDeserialize)));
}

#[test]
fn unreadable_file_is_fatal() {
    let r = load_config(FileRead::Unreadable);
    assert!(matches!(r, Startup::Abort(Error::Io(IoKind::Other))));
}

#[test]
fn error_descriptions() {
    assert_eq!(Error::Io(IoKind::NotFound).describe(), "i/o error: file not found");
    assert_eq!(Error::Io(IoKind::Other).describe(), "i/o error");
    assert_eq!(Error::Discord.describe(), "the messaging platform reported an error");
    assert_eq!(Error::TomlSerialize.describe(), "could not serialize the configuration");
    assert_eq!(Error::TomlDeserialize.describe(), "could not deserialize the configuration");
}
