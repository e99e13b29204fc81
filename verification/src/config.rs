//! The configuration store: the options of the bot, their TOML
//! persistence (load, save, default-on-missing-file), and the
//! role-based permission model.

use vstd::prelude::*;
use crate::dispatch::Member;
use crate::error::Error;
use crate::error::IoKind;
use crate::text::dec_str;
use crate::text::str_eq;
use crate::text::u64_to_dec;
use crate::toml_doc::TomlData;
use crate::toml_doc::empty_doc;
use crate::toml_doc::list_data;
use crate::toml_doc::parse_toml;
use crate::toml_doc::render_toml;
use crate::toml_doc::table_entries;
use crate::toml_doc::table_get;
use crate::toml_doc::table_insert;
use crate::toml_doc::table_new;
use crate::toml_doc::table_data;
use crate::toml_doc::toml_parse;
use crate::toml_doc::value_as_int;
use crate::toml_doc::value_as_list;
use crate::toml_doc::value_as_table;
use crate::toml_doc::value_as_text;
use crate::toml_doc::value_data;
use crate::toml_doc::value_int;
use crate::toml_doc::value_list;
use crate::toml_doc::value_table;
use crate::toml_doc::value_text;

verus! {

/// The options that can be changed for the bot.
pub struct Config {
    /// The prefix prepended to commands.
    pub cmd_prefix: String,
    /// The role identifier granted to normal members.
    pub member_role: u64,
    /// The role identifier for casual players.
    pub casual_role: u64,
    /// The role identifier for competitive players.
    pub comp_role: u64,
    /// How many minutes voting stays open once a vote is created.
    pub vote_minutes: u64,
    /// The channel identifier in which votes are announced.
    pub channel_announce: u64,
    /// The channel identifier in which users can vote.
    pub channel_vote: u64,
    /// For each role identifier (as a decimal string), the set of
    /// permission strings granted to holders of that role. Keys are
    /// unique; see [`Config::wf`].
    pub permissions: Vec<(String, Vec<String>)>,
}

/// The mathematical content of a [`Config`]: its view.
#[verifier::ext_equal]
pub struct ConfigData {
    /// The command prefix.
    pub cmd_prefix: Seq<char>,
    /// The role identifier granted to normal members.
    pub member_role: u64,
    /// The role identifier for casual players.
    pub casual_role: u64,
    /// The role identifier for competitive players.
    pub comp_role: u64,
    /// How many minutes voting stays open.
    pub vote_minutes: u64,
    /// The announcement channel identifier.
    pub channel_announce: u64,
    /// The voting channel identifier.
    pub channel_vote: u64,
    /// The permission table: role key to granted permission strings.
    pub permissions: Map<Seq<char>, Seq<Seq<char>>>,
}

/// The permission table denoted by a list of (role key, permissions)
/// pairs; a repeated key would be settled in favour of the later pair.
pub open spec fn perm_map_of(pairs: Seq<(String, Vec<String>)>) -> Map<Seq<char>, Seq<Seq<char>>>
    decreases pairs.len(),
{
    if pairs.len() == 0 {
        Map::empty()
    } else {
        perm_map_of(pairs.drop_last()).insert(pairs.last().0@, pairs.last().1.deep_view())
    }
}

/// Pairwise-distinct role keys.
pub open spec fn distinct_keys(pairs: Seq<(String, Vec<String>)>) -> bool {
    forall|i: int, j: int| 0 <= i < j < pairs.len() ==> pairs[i].0@ != pairs[j].0@
}

/// The permission table contains exactly the keys of the pairs.
pub proof fn lemma_perm_map_contains(pairs: Seq<(String, Vec<String>)>, k: Seq<char>)
    ensures
        perm_map_of(pairs).contains_key(k) <==> exists|i: int|
            0 <= i < pairs.len() && pairs[i].0@ == k,
    decreases pairs.len(),
{
    if pairs.len() == 0 {
    } else {
        lemma_perm_map_contains(pairs.drop_last(), k);
        if pairs.last().0@ == k {
            assert(pairs[pairs.len() - 1].0@ == k);
        } else {
            if perm_map_of(pairs).contains_key(k) {
                let i = choose|i: int|
                    0 <= i < pairs.drop_last().len() && pairs.drop_last()[i].0@ == k;
                assert(pairs[i].0@ == k);
            }
            if exists|i: int| 0 <= i < pairs.len() && pairs[i].0@ == k {
                let i = choose|i: int| 0 <= i < pairs.len() && pairs[i].0@ == k;
                assert(pairs.drop_last()[i].0@ == k);
            }
        }
    }
}

/// With distinct keys, each pair is found intact in the table.
pub proof fn lemma_perm_map_lookup(pairs: Seq<(String, Vec<String>)>, i: int)
    requires
        distinct_keys(pairs),
        0 <= i < pairs.len(),
    ensures
        perm_map_of(pairs).contains_key(pairs[i].0@),
        perm_map_of(pairs)[pairs[i].0@] == pairs[i].1.deep_view(),
    decreases pairs.len(),
{
    if i == pairs.len() - 1 {
    } else {
        assert(forall|a: int, b: int|
            0 <= a < b < pairs.drop_last().len() ==> pairs.drop_last()[a].0@
                != pairs.drop_last()[b].0@);
        lemma_perm_map_lookup(pairs.drop_last(), i);
        assert(pairs.drop_last()[i] == pairs[i]);
        assert(pairs.last().0@ != pairs[i].0@);
    }
}

/// Whether at least one of `roles`, rendered as a decimal key, is
/// granted `p` by `cfg`'s permission table.
pub open spec fn has_perm(cfg: ConfigData, roles: Seq<u64>, p: Seq<char>) -> bool {
    exists|i: int|
        0 <= i < roles.len() && cfg.permissions.contains_key(dec_str(roles[i] as nat))
            && cfg.permissions[dec_str(roles[i] as nat)].contains(p)
}

/// A member with no roles holds no permission, whatever the table says.
pub proof fn lemma_no_roles_no_perm(cfg: ConfigData, p: Seq<char>)
    ensures
        !has_perm(cfg, Seq::empty(), p),
{
}

impl View for Config {
    type V = ConfigData;

    open spec fn view(&self) -> ConfigData {
        ConfigData {
            cmd_prefix: self.cmd_prefix@,
            member_role: self.member_role,
            casual_role: self.casual_role,
            comp_role: self.comp_role,
            vote_minutes: self.vote_minutes,
            channel_announce: self.channel_announce,
            channel_vote: self.channel_vote,
            permissions: perm_map_of(self.permissions@),
        }
    }
}

/// The fixed default configuration: prefix `!`, all identifiers zero,
/// a day of voting, and an empty permission table.
pub open spec fn default_config() -> ConfigData {
    ConfigData {
        cmd_prefix: "!"@,
        member_role: 0,
        casual_role: 0,
        comp_role: 0,
        vote_minutes: 1440,
        channel_announce: 0,
        channel_vote: 0,
        permissions: Map::empty(),
    }
}

/// Whether every numeric field fits a TOML integer, which is signed.
pub open spec fn fits_toml(c: ConfigData) -> bool {
    &&& c.member_role <= i64::MAX
    &&& c.casual_role <= i64::MAX
    &&& c.comp_role <= i64::MAX
    &&& c.vote_minutes <= i64::MAX
    &&& c.channel_announce <= i64::MAX
    &&& c.channel_vote <= i64::MAX
}

/// A permission group as TOML data: an array of strings.
pub open spec fn text_list(ss: Seq<Seq<char>>) -> TomlData {
    TomlData::List(ss.map_values(|s: Seq<char>| TomlData::Text(s)))
}

/// A permission table as TOML data: a table of arrays of strings.
pub open spec fn perm_table(m: Map<Seq<char>, Seq<Seq<char>>>) -> Map<Seq<char>, TomlData> {
    Map::new(|k: Seq<char>| m.contains_key(k), |k: Seq<char>| text_list(m[k]))
}

/// The TOML document that saving `c` denotes.
pub open spec fn config_table(c: ConfigData) -> Map<Seq<char>, TomlData> {
    empty_doc().insert("cmd_prefix"@, TomlData::Text(c.cmd_prefix)).insert(
        "member_role"@,
        TomlData::Int(c.member_role as i64),
    ).insert("casual_role"@, TomlData::Int(c.casual_role as i64)).insert(
        "comp_role"@,
        TomlData::Int(c.comp_role as i64),
    ).insert("vote_minutes"@, TomlData::Int(c.vote_minutes as i64)).insert(
        "channel_announce"@,
        TomlData::Int(c.channel_announce as i64),
    ).insert("channel_vote"@, TomlData::Int(c.channel_vote as i64)).insert(
        "permissions"@,
        TomlData::Table(perm_table(c.permissions)),
    )
}

/// A required numeric field: present, an integer, and non-negative.
pub open spec fn int_field_ok(m: Map<Seq<char>, TomlData>, k: Seq<char>) -> bool {
    m.contains_key(k) && (m[k] matches TomlData::Int(i) && i >= 0)
}

/// A permission group read back from TOML: an array of strings.
pub open spec fn group_ok(d: TomlData) -> bool {
    d matches TomlData::List(items) && forall|i: int| 0 <= i < items.len() ==> items[i] is Text
}

/// A permission table read back from TOML: a table of valid groups.
pub open spec fn perms_ok(d: TomlData) -> bool {
    d matches TomlData::Table(pt) && forall|k: Seq<char>|
        pt.contains_key(k) ==> group_ok(#[trigger] pt[k])
}

/// Whether a parsed document satisfies the required-field schema: every
/// field present with the right type, with no default filled in for a
/// missing one. Unknown extra keys are ignored.
pub open spec fn schema_ok(m: Map<Seq<char>, TomlData>) -> bool {
    &&& m.contains_key("cmd_prefix"@) && m["cmd_prefix"@] is Text
    &&& int_field_ok(m, "member_role"@)
    &&& int_field_ok(m, "casual_role"@)
    &&& int_field_ok(m, "comp_role"@)
    &&& int_field_ok(m, "vote_minutes"@)
    &&& int_field_ok(m, "channel_announce"@)
    &&& int_field_ok(m, "channel_vote"@)
    &&& m.contains_key("permissions"@) && perms_ok(m["permissions"@])
}

/// The strings of a permission group, given `group_ok`.
pub open spec fn texts_of(d: TomlData) -> Seq<Seq<char>> {
    d->List_0.map_values(|x: TomlData| x->Text_0)
}

/// The permission table of a document value, given `perms_ok`.
pub open spec fn perms_of(d: TomlData) -> Map<Seq<char>, Seq<Seq<char>>> {
    Map::new(|k: Seq<char>| d->Table_0.contains_key(k), |k: Seq<char>| texts_of(d->Table_0[k]))
}

/// The configuration a schema-satisfying document denotes.
pub open spec fn config_of(m: Map<Seq<char>, TomlData>) -> ConfigData {
    ConfigData {
        cmd_prefix: m["cmd_prefix"@]->Text_0,
        member_role: m["member_role"@]->Int_0 as u64,
        casual_role: m["casual_role"@]->Int_0 as u64,
        comp_role: m["comp_role"@]->Int_0 as u64,
        vote_minutes: m["vote_minutes"@]->Int_0 as u64,
        channel_announce: m["channel_announce"@]->Int_0 as u64,
        channel_vote: m["channel_vote"@]->Int_0 as u64,
        permissions: perms_of(m["permissions"@]),
    }
}

/// Whether `text` parses as TOML and satisfies the schema.
pub open spec fn parse_ok(text: Seq<char>) -> bool {
    toml_parse(text) matches Some(m) && schema_ok(m)
}

/// The configuration denoted by `text`, given `parse_ok`.
pub open spec fn parsed_config(text: Seq<char>) -> ConfigData {
    config_of(toml_parse(text)->Some_0)
}

/// A configuration's document nests two levels (the permission table
/// and its arrays of strings): far below the renderer's claimed bound.
proof fn lemma_config_table_depth(c: ConfigData)
    ensures
        crate::toml_doc::doc_depth_le(config_table(c), 32),
{
    let pm = c.permissions;
    assert forall|k: Seq<char>| perm_table(pm).contains_key(k) implies crate::toml_doc::data_depth_le(
        #[trigger] perm_table(pm)[k],
        31,
    ) by {
        let tl = text_list(pm[k]);
        assert forall|i: int| 0 <= i < tl->List_0.len() implies crate::toml_doc::data_depth_le(
            #[trigger] tl->List_0[i],
            30,
        ) by {
            assert(tl->List_0[i] == TomlData::Text(pm[k][i]));
        }
        assert(crate::toml_doc::data_depth_le(tl, 31));
    }
    let pt = TomlData::Table(perm_table(pm));
    assert(crate::toml_doc::data_depth_le(pt, 32));
    let m0 = empty_doc();
    let m1 = m0.insert("cmd_prefix"@, TomlData::Text(c.cmd_prefix));
    let m2 = m1.insert("member_role"@, TomlData::Int(c.member_role as i64));
    let m3 = m2.insert("casual_role"@, TomlData::Int(c.casual_role as i64));
    let m4 = m3.insert("comp_role"@, TomlData::Int(c.comp_role as i64));
    let m5 = m4.insert("vote_minutes"@, TomlData::Int(c.vote_minutes as i64));
    let m6 = m5.insert("channel_announce"@, TomlData::Int(c.channel_announce as i64));
    let m7 = m6.insert("channel_vote"@, TomlData::Int(c.channel_vote as i64));
    assert(crate::toml_doc::doc_depth_le(m0, 32));
    crate::toml_doc::lemma_doc_depth_insert(m0, "cmd_prefix"@, TomlData::Text(c.cmd_prefix), 32);
    crate::toml_doc::lemma_doc_depth_insert(m1, "member_role"@, TomlData::Int(c.member_role as i64), 32);
    crate::toml_doc::lemma_doc_depth_insert(m2, "casual_role"@, TomlData::Int(c.casual_role as i64), 32);
    crate::toml_doc::lemma_doc_depth_insert(m3, "comp_role"@, TomlData::Int(c.comp_role as i64), 32);
    crate::toml_doc::lemma_doc_depth_insert(m4, "vote_minutes"@, TomlData::Int(c.vote_minutes as i64), 32);
    crate::toml_doc::lemma_doc_depth_insert(m5, "channel_announce"@, TomlData::Int(c.channel_announce as i64), 32);
    crate::toml_doc::lemma_doc_depth_insert(m6, "channel_vote"@, TomlData::Int(c.channel_vote as i64), 32);
    crate::toml_doc::lemma_doc_depth_insert(m7, "permissions"@, pt, 32);
}

/// Stripping a group back out of its TOML form gives the group.
proof fn lemma_texts_of_text_list(ss: Seq<Seq<char>>)
    ensures
        texts_of(text_list(ss)) == ss,
{
    assert(texts_of(text_list(ss)) =~= ss);
}

/// The document a configuration denotes satisfies the schema and
/// denotes that same configuration: loading what `save` wrote yields a
/// configuration equal field for field, permission tables included.
/// Numeric fields above the signed 64-bit range cannot be written to
/// TOML at all, so they are excluded here as they are by `save` itself.
pub proof fn lemma_save_load_round_trip(c: ConfigData)
    requires
        fits_toml(c),
    ensures
        schema_ok(config_table(c)),
        config_of(config_table(c)) == c,
{
    reveal_strlit("cmd_prefix");
    reveal_strlit("member_role");
    reveal_strlit("casual_role");
    reveal_strlit("comp_role");
    reveal_strlit("vote_minutes");
    reveal_strlit("channel_announce");
    reveal_strlit("channel_vote");
    reveal_strlit("permissions");
    // The eight keys are pairwise distinct: no two share both their
    // length and their first character.
    assert("cmd_prefix"@.len() == 10 && "cmd_prefix"@[0] == 'c');
    assert("member_role"@.len() == 11 && "member_role"@[0] == 'm');
    assert("casual_role"@.len() == 11 && "casual_role"@[0] == 'c');
    assert("comp_role"@.len() == 9 && "comp_role"@[0] == 'c');
    assert("vote_minutes"@.len() == 12 && "vote_minutes"@[0] == 'v');
    assert("channel_announce"@.len() == 16 && "channel_announce"@[0] == 'c');
    assert("channel_vote"@.len() == 12 && "channel_vote"@[0] == 'c');
    assert("permissions"@.len() == 11 && "permissions"@[0] == 'p');
    let m = config_table(c);
    assert(perms_ok(m["permissions"@]));
    assert forall|k: Seq<char>| c.permissions.contains_key(k) implies #[trigger] perms_of(
        m["permissions"@],
    )[k] == c.permissions[k] by {
        lemma_texts_of_text_list(c.permissions[k]);
    }
    assert(perms_of(m["permissions"@]) =~= c.permissions);
    assert(config_of(m) =~~= c);
}

/// The default configuration round-trips through its TOML document.
pub proof fn lemma_default_round_trip()
    ensures
        fits_toml(default_config()),
        schema_ok(config_table(default_config())),
        config_of(config_table(default_config())) == default_config(),
{
    lemma_save_load_round_trip(default_config());
}

/// What a startup file read yielded, as the platform glue reports it.
pub enum FileRead {
    /// The file was read in full as text.
    Found(String),
    /// No file exists at the path.
    Missing,
    /// The file exists but could not be read as text.
    Unreadable,
}

/// What startup is to do about the configuration file.
pub enum Startup {
    /// The file held a valid configuration: use it.
    Ready(Config),
    /// No file: write this text at the path, then use this default
    /// configuration.
    WriteDefault(Config, String),
    /// Startup must not proceed; the error says why.
    Abort(Error),
}

impl Default for Config {
    /// The fixed default configuration.
    fn default() -> (c: Config)
        ensures
            c@ == default_config(),
            c.wf(),
    {
        let c = Config {
            cmd_prefix: "!".to_owned(),
            member_role: 0,
            casual_role: 0,
            comp_role: 0,
            vote_minutes: 1440,
            channel_announce: 0,
            channel_vote: 0,
            permissions: Vec::new(),
        };
        assert(c@ =~~= default_config());
        c
    }
}

impl Config {
    /// The permission-table keys are pairwise distinct.
    pub open spec fn wf(&self) -> bool {
        distinct_keys(self.permissions@)
    }

    /// Parses `text` as a TOML configuration document. Succeeds exactly
    /// when the text is valid TOML satisfying the required-field
    /// schema; every failure, syntactic or structural, is reported as
    /// a deserialization failure — never as I/O.
    #[verifier::loop_isolation(false)]
    pub fn load(text: &str) -> (r: Result<Config, Error>)
        ensures
            r is Ok <==> parse_ok(text@),
            r matches Ok(c) ==> c.wf() && c@ == parsed_config(text@),
            r matches Err(e) ==> e == Error::TomlDeserialize,
    {
        let t = match parse_toml(text) {
            Some(t) => t,
            None => {
                return Err(Error::TomlDeserialize);
            },
        };
        let ghost m = table_data(t);
        let cmd_prefix = match table_get(&t, "cmd_prefix") {
            Some(v) => match value_as_text(v) {
                Some(s) => s,
                None => {
                    return Err(Error::TomlDeserialize);
                },
            },
            None => {
                return Err(Error::TomlDeserialize);
            },
        };
        let member_role = match get_u64_field(&t, "member_role") {
            Some(x) => x,
            None => {
                return Err(Error::TomlDeserialize);
            },
        };
        let casual_role = match get_u64_field(&t, "casual_role") {
            Some(x) => x,
            None => {
                return Err(Error::TomlDeserialize);
            },
        };
        let comp_role = match get_u64_field(&t, "comp_role") {
            Some(x) => x,
            None => {
                return Err(Error::TomlDeserialize);
            },
        };
        let vote_minutes = match get_u64_field(&t, "vote_minutes") {
            Some(x) => x,
            None => {
                return Err(Error::TomlDeserialize);
            },
        };
        let channel_announce = match get_u64_field(&t, "channel_announce") {
            Some(x) => x,
            None => {
                return Err(Error::TomlDeserialize);
            },
        };
        let channel_vote = match get_u64_field(&t, "channel_vote") {
            Some(x) => x,
            None => {
                return Err(Error::TomlDeserialize);
            },
        };
        let pt = match table_get(&t, "permissions") {
            Some(v) => match value_as_table(v) {
                Some(pt) => pt,
                None => {
                    return Err(Error::TomlDeserialize);
                },
            },
            None => {
                return Err(Error::TomlDeserialize);
            },
        };
        let ghost ptd = table_data(*pt);
        let entries = table_entries(pt);
        let mut pairs: Vec<(String, Vec<String>)> = Vec::new();
        let n = entries.len();
        let mut i: usize = 0;
        while i < n
            invariant
                i <= n,
                n == entries@.len(),
                ptd == table_data(*pt),
                forall|a: int, b: int| 0 <= a < b < entries@.len() ==> entries@[a].0@
                    != entries@[b].0@,
                forall|a: int|
                    0 <= a < entries@.len() ==> ptd.contains_key(#[trigger] (entries@[a].0)@)
                        && crate::toml_doc::value_data(entries@[a].1) == ptd[entries@[a].0@],
                forall|k: Seq<char>|
                    ptd.contains_key(k) ==> exists|a: int|
                        0 <= a < entries@.len() && (#[trigger] entries@[a]).0@ == k,
                pairs@.len() == i,
                forall|a: int| 0 <= a < i ==> (#[trigger] pairs@[a]).0@ == entries@[a].0@,
                forall|a: int|
                    0 <= a < i ==> group_ok(ptd[(#[trigger] pairs@[a]).0@]) && pairs@[a].1.deep_view()
                        == texts_of(ptd[pairs@[a].0@]),
            decreases n - i,
        {
            let entry = &entries[i];
            let items = match value_as_list(&entry.1) {
                Some(items) => items,
                None => {
                    proof {
                        assert(value_data(entries@[i as int].1) == ptd[entries@[i as int].0@]);
                        assert(!group_ok(ptd[entries@[i as int].0@]));
                        assert(!perms_ok(m["permissions"@]));
                    }
                    return Err(Error::TomlDeserialize);
                },
            };
            let gl = items.len();
            let mut group: Vec<String> = Vec::new();
            let mut j: usize = 0;
            while j < gl
                invariant
                    j <= gl,
                    gl == items@.len(),
                    crate::toml_doc::value_data(entries@[i as int].1) == TomlData::List(
                        list_data(items@),
                    ),
                    group@.len() == j,
                    forall|b: int|
                        0 <= b < j ==> crate::toml_doc::value_data(items@[b]) == TomlData::Text(
                            (#[trigger] group@[b])@,
                        ),
                decreases gl - j,
            {
                let s = match value_as_text(&items[j]) {
                    Some(s) => s,
                    None => {
                        proof {
                            assert(list_data(items@)[j as int] == crate::toml_doc::value_data(
                                items@[j as int],
                            ));
                            assert(!group_ok(ptd[entries@[i as int].0@]));
                            assert(!perms_ok(m["permissions"@]));
                        }
                        return Err(Error::TomlDeserialize);
                    },
                };
                group.push(s);
                j += 1;
            }
            proof {
                assert forall|b: int| 0 <= b < list_data(items@).len() implies list_data(
                    items@,
                )[b] is Text by {
                    assert(crate::toml_doc::value_data(items@[b]) == TomlData::Text(group@[b]@));
                }
                assert(group_ok(ptd[entries@[i as int].0@]));
                assert(group.deep_view() =~= texts_of(ptd[entries@[i as int].0@]));
            }
            let key = entry.0.clone();
            pairs.push((key, group));
            i += 1;
        }
        let c = Config {
            cmd_prefix,
            member_role,
            casual_role,
            comp_role,
            vote_minutes,
            channel_announce,
            channel_vote,
            permissions: pairs,
        };
        proof {
            assert forall|k: Seq<char>| ptd.contains_key(k) implies group_ok(#[trigger] ptd[k]) by {
                let a = choose|a: int| 0 <= a < entries@.len() && (entries@[a]).0@ == k;
                assert(pairs@[a].0@ == k);
                assert(group_ok(ptd[pairs@[a].0@]));
            }
            assert(perms_ok(m["permissions"@]));
            assert(schema_ok(m));
            assert forall|k: Seq<char>| #[trigger] perm_map_of(pairs@).contains_key(k) implies ptd.contains_key(
                k,
            ) && perm_map_of(pairs@)[k] == texts_of(ptd[k]) by {
                lemma_perm_map_contains(pairs@, k);
                let a = choose|a: int| 0 <= a < pairs@.len() && pairs@[a].0@ == k;
                lemma_perm_map_lookup(pairs@, a);
            }
            assert forall|k: Seq<char>| ptd.contains_key(k) implies perm_map_of(
                pairs@,
            ).contains_key(k) by {
                let a = choose|a: int| 0 <= a < entries@.len() && entries@[a].0@ == k;
                assert(pairs@[a].0@ == k);
                lemma_perm_map_contains(pairs@, k);
            }
            assert(perm_map_of(pairs@) =~= perms_of(m["permissions"@]));
            assert(c@ =~~= config_of(m));
        }
        Ok(c)
    }

    /// Renders this configuration as a TOML document. Fails with a
    /// serialization failure exactly when a numeric field exceeds the
    /// signed 64-bit range of a TOML integer; otherwise it succeeds,
    /// and parsing the returned text yields exactly this
    /// configuration's document.
    #[verifier::loop_isolation(false)]
    pub fn save(&self) -> (r: Result<String, Error>)
        ensures
            !fits_toml(self@) ==> (r matches Err(e) && e == Error::TomlSerialize),
            fits_toml(self@) ==> (r matches Ok(text) && toml_parse(text@) == Some(
                config_table(self@),
            )),
    {
        if self.member_role > i64::MAX as u64 || self.casual_role > i64::MAX as u64
            || self.comp_role > i64::MAX as u64 || self.vote_minutes > i64::MAX as u64
            || self.channel_announce > i64::MAX as u64 || self.channel_vote > i64::MAX as u64 {
            return Err(Error::TomlSerialize);
        }
        let mut pt = table_new();
        let n = self.permissions.len();
        let mut i: usize = 0;
        while i < n
            invariant
                i <= n,
                n == self.permissions@.len(),
                table_data(pt) =~= perm_table(perm_map_of(self.permissions@.take(i as int))),
            decreases n - i,
        {
            let pair = &self.permissions[i];
            let gl = pair.1.len();
            let mut items: Vec<toml::Value> = Vec::new();
            let mut j: usize = 0;
            while j < gl
                invariant
                    j <= gl,
                    gl == pair.1@.len(),
                    pair == &self.permissions@[i as int],
                    items@.len() == j,
                    forall|b: int|
                        0 <= b < j ==> crate::toml_doc::value_data(#[trigger] items@[b])
                            == TomlData::Text(pair.1@[b]@),
                decreases gl - j,
            {
                items.push(value_text(pair.1[j].as_str()));
                j += 1;
            }
            proof {
                assert(list_data(items@) =~= pair.1.deep_view().map_values(
                    |s: Seq<char>| TomlData::Text(s),
                ));
            }
            let v = value_list(items);
            table_insert(&mut pt, pair.0.as_str(), v);
            proof {
                let prefix = self.permissions@.take(i as int);
                let longer = self.permissions@.take(i as int + 1);
                assert(longer.drop_last() =~= prefix);
                assert(longer.last() == self.permissions@[i as int]);
                assert(perm_map_of(longer) == perm_map_of(prefix).insert(
                    self.permissions@[i as int].0@,
                    self.permissions@[i as int].1.deep_view(),
                ));
                assert(perm_table(perm_map_of(longer)) =~= perm_table(perm_map_of(prefix)).insert(
                    self.permissions@[i as int].0@,
                    text_list(self.permissions@[i as int].1.deep_view()),
                ));
            }
            i += 1;
        }
        proof {
            assert(self.permissions@.take(n as int) =~= self.permissions@);
        }
        let mut root = table_new();
        table_insert(&mut root, "cmd_prefix", value_text(self.cmd_prefix.as_str()));
        table_insert(&mut root, "member_role", value_int(self.member_role as i64));
        table_insert(&mut root, "casual_role", value_int(self.casual_role as i64));
        table_insert(&mut root, "comp_role", value_int(self.comp_role as i64));
        table_insert(&mut root, "vote_minutes", value_int(self.vote_minutes as i64));
        table_insert(&mut root, "channel_announce", value_int(self.channel_announce as i64));
        table_insert(&mut root, "channel_vote", value_int(self.channel_vote as i64));
        table_insert(&mut root, "permissions", value_table(pt));
        proof {
            assert(table_data(root) =~= config_table(self@));
            lemma_config_table_depth(self@);
        }
        match render_toml(&root) {
            Some(text) => Ok(text),
            None => {
                proof {
                    assert(false);
                }
                Err(Error::TomlSerialize)
            },
        }
    }

    /// Whether the member holds `value`: true exactly when at least one
    /// of the member's role identifiers, rendered in decimal, is a key
    /// of the permission table whose group contains `value`. A member
    /// with no roles holds nothing.
    #[verifier::loop_isolation(false)]
    pub fn user_has_perm(&self, member: &Member, value: &str) -> (r: bool)
        requires
            self.wf(),
        ensures
            r == has_perm(self@, member.roles@, value@),
    {
        let nroles = member.roles.len();
        let mut i: usize = 0;
        while i < nroles
            invariant
                i <= nroles,
                nroles == member.roles@.len(),
                self.wf(),
                forall|a: int|
                    0 <= a < i ==> !(self@.permissions.contains_key(
                        dec_str(#[trigger] member.roles@[a] as nat),
                    ) && self@.permissions[dec_str(member.roles@[a] as nat)].contains(value@)),
            decreases nroles - i,
        {
            let key = u64_to_dec(member.roles[i]);
            match self.perm_group_for(key.as_str()) {
                Some(group) => {
                    if group_contains(group, value) {
                        return true;
                    }
                },
                None => {},
            }
            i += 1;
        }
        false
    }

    /// Decides [`Config::wf`] at run time: whether the permission-table
    /// keys are pairwise distinct.
    #[verifier::loop_isolation(false)]
    pub fn check_wf(&self) -> (r: bool)
        ensures
            r == self.wf(),
    {
        let n = self.permissions.len();
        let mut i: usize = 0;
        while i < n
            invariant
                i <= n,
                forall|a: int, b: int| 0 <= a < b < n && a < i ==> (#[trigger] self.permissions@[a]).0@
                    != (#[trigger] self.permissions@[b]).0@,
            decreases n - i,
        {
            let mut j: usize = i + 1;
            while j < n
                invariant
                    i < j <= n,
                    forall|b: int| i < b < j ==> (#[trigger] self.permissions@[b]).0@
                        != self.permissions@[i as int].0@,
                decreases n - j,
            {
                if str_eq(self.permissions[i].0.as_str(), self.permissions[j].0.as_str()) {
                    return false;
                }
                j += 1;
            }
            i += 1;
        }
        true
    }

    /// The permission group stored under `key`, if any.
    #[verifier::loop_isolation(false)]
    fn perm_group_for<'a>(&'a self, key: &str) -> (r: Option<&'a Vec<String>>)
        requires
            self.wf(),
        ensures
            match r {
                Some(g) => self@.permissions.contains_key(key@) && g.deep_view()
                    == self@.permissions[key@],
                None => !self@.permissions.contains_key(key@),
            },
    {
        let n = self.permissions.len();
        let mut j: usize = 0;
        while j < n
            invariant
                j <= n,
                n == self.permissions@.len(),
                self.wf(),
                forall|a: int| 0 <= a < j ==> (#[trigger] self.permissions@[a]).0@ != key@,
            decreases n - j,
        {
            let pair = &self.permissions[j];
            if str_eq(pair.0.as_str(), key) {
                proof {
                    lemma_perm_map_lookup(self.permissions@, j as int);
                }
                return Some(&pair.1);
            }
            j += 1;
        }
        proof {
            lemma_perm_map_contains(self.permissions@, key@);
        }
        None
    }
}

/// Whether `group` contains `value`.
#[verifier::loop_isolation(false)]
fn group_contains(group: &Vec<String>, value: &str) -> (r: bool)
    ensures
        r == group.deep_view().contains(value@),
{
    let n = group.len();
    let mut i: usize = 0;
    while i < n
        invariant
            i <= n,
            n == group@.len(),
            forall|a: int| 0 <= a < i ==> (#[trigger] group@[a])@ != value@,
        decreases n - i,
    {
        if str_eq(group[i].as_str(), value) {
            assert(group.deep_view()[i as int] == value@);
            return true;
        }
        i += 1;
    }
    proof {
        if group.deep_view().contains(value@) {
            let a = choose|a: int| 0 <= a < group.deep_view().len() && group.deep_view()[a] == value@;
            assert(group@[a]@ == value@);
        }
    }
    false
}

/// A required numeric field of the document: present, an integer, and
/// non-negative, as an unsigned value.
fn get_u64_field(t: &toml::map::Map<String, toml::Value>, k: &str) -> (r: Option<u64>)
    ensures
        match r {
            Some(x) => int_field_ok(table_data(*t), k@) && x == table_data(*t)[k@]->Int_0 as u64,
            None => !int_field_ok(table_data(*t), k@),
        },
{
    match table_get(t, k) {
        Some(v) => match value_as_int(v) {
            Some(x) => if x >= 0 {
                Some(x as u64)
            } else {
                None
            },
            None => None,
        },
        None => None,
    }
}

/// Decides what startup does about the configuration file, from what
/// reading it yielded: a valid file is used; a missing file is healed
/// by writing the default configuration; anything else is fatal.
pub fn load_config(read: FileRead) -> (r: Startup)
    ensures
        match read {
            FileRead::Found(text) => match r {
                Startup::Ready(c) => c.wf() && parse_ok(text@) && c@ == parsed_config(text@),
                Startup::Abort(e) => e == Error::TomlDeserialize && !parse_ok(text@),
                Startup::WriteDefault(_, _) => false,
            },
            FileRead::Missing => match r {
                Startup::WriteDefault(c, text) => c@ == default_config() && c.wf() && toml_parse(
                    text@,
                ) == Some(config_table(default_config())),
                Startup::Abort(_) => false,
                Startup::Ready(_) => false,
            },
            FileRead::Unreadable => r == Startup::Abort(Error::Io(IoKind::Other)),
        },
{
    match read {
        FileRead::Found(text) => match Config::load(text.as_str()) {
            Ok(c) => Startup::Ready(c),
            Err(_) => Startup::Abort(Error::TomlDeserialize),
        },
        FileRead::Missing => {
            let c = Config::default();
            match c.save() {
                Ok(text) => Startup::WriteDefault(c, text),
                Err(_) => {
                    proof {
                        assert(false);
                    }
                    Startup::Abort(Error::TomlSerialize)
                },
            }
        },
        FileRead::Unreadable => Startup::Abort(Error::Io(IoKind::Other)),
    }
}

} // verus!
