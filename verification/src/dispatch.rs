//! Inbound messages, guild members, and the per-message dispatch
//! algorithm: prefix check, label extraction, sender resolution,
//! registry scan, and permission gate.

use vstd::prelude::*;
use vstd::string::StrSliceExecFns;
use crate::command::Command;
use crate::config::Config;
use crate::config::ConfigData;
use crate::config::has_perm;
use crate::text::args_of;
use crate::text::find_space;
use crate::text::first_token;
use crate::text::label_of;
use crate::text::has_prefix;
use crate::text::split_spaces;
use crate::text::str_eq;
use crate::text::strip_leading;
use crate::text::lemma_first_space;

verus! {

/// A guild member: the sender of a message, carrying the identifiers of
/// the roles it holds.
pub struct Member {
    /// The role identifiers held by this member, in the platform's order.
    pub roles: Vec<u64>,
}

/// An inbound chat message, reduced to what dispatch reads: its text,
/// the channel it arrived on, and its sender's member record (absent
/// when the message was not sent from inside a guild).
pub struct Message {
    /// The raw text content.
    pub content: String,
    /// The identifier of the channel the message arrived on.
    pub channel_id: u64,
    /// The sender's member record, if the message came from a guild.
    pub member: Option<Member>,
}

/// Whether registry entry `cmd` is to be invoked for a message carrying
/// `label` sent by a member holding `roles`.
pub open spec fn cmd_matches(cfg: ConfigData, roles: Seq<u64>, label: Seq<char>, cmd: Command) -> bool {
    cmd.label@ == label && has_perm(cfg, roles, cmd.perm@)
}

/// What the dispatcher decides for one inbound message.
pub enum Dispatch {
    /// The text does not start with the command prefix: ignored, no
    /// registry scan.
    NotCommand,
    /// The message was not sent by a guild member: ignored.
    NoSender,
    /// The registry entries at these indices are invoked, in order.
    Invoke(Vec<usize>),
}

/// The first space-delimited token of the message, with the leading
/// occurrence of the configured command prefix (if any) removed once.
pub fn get_label<'a>(msg: &'a Message, cfg: &Config) -> (r: &'a str)
    ensures
        r@ == label_of(msg.content@, cfg.cmd_prefix@),
{
    let token = first_token(msg.content.as_str());
    strip_leading(token, cfg.cmd_prefix.as_str())
}

/// Every space-delimited segment of the message text except the first:
/// the arguments of a command invocation. Consecutive spaces yield
/// empty segments.
pub fn get_args<'a>(msg: &'a Message) -> (r: Vec<&'a str>)
    ensures
        r@.len() == args_of(msg.content@).len(),
        forall|i: int| 0 <= i < r@.len() ==> r@[i]@ == args_of(msg.content@)[i],
{
    let mut v = split_all(msg.content.as_str());
    v.remove(0);
    v
}

/// `s` split on single spaces, as slices of `s`.
fn split_all<'a>(s: &'a str) -> (r: Vec<&'a str>)
    ensures
        r@.len() == split_spaces(s@).len(),
        forall|i: int| 0 <= i < r@.len() ==> r@[i]@ == split_spaces(s@)[i],
    decreases s@.len(),
{
    proof {
        lemma_first_space(s@);
    }
    let n = s.unicode_len();
    let i = find_space(s);
    if i == n {
        let mut v: Vec<&str> = Vec::new();
        v.push(s);
        v
    } else {
        let head = s.substring_char(0, i);
        let tail = s.substring_char(i + 1, n);
        let mut v = split_all(tail);
        v.insert(0, head);
        v
    }
}

/// One pass of the dispatcher over an inbound message: prefix check,
/// label extraction, sender resolution, then a scan of the full registry
/// in order, keeping every entry whose label equals the extracted label
/// and whose required permission the sender holds. Entries sharing a
/// label are all kept: no first-match short circuit.
#[verifier::loop_isolation(false)]
pub fn plan_dispatch(cfg: &Config, commands: &Vec<Command>, msg: &Message) -> (d: Dispatch)
    requires
        cfg.wf(),
    ensures
        !cfg.cmd_prefix@.is_prefix_of(msg.content@) ==> d == Dispatch::NotCommand,
        cfg.cmd_prefix@.is_prefix_of(msg.content@) && msg.member is None ==> d == Dispatch::NoSender,
        cfg.cmd_prefix@.is_prefix_of(msg.content@) ==> (msg.member matches Some(m) ==> {
            &&& d matches Dispatch::Invoke(v)
            &&& forall|a: int, b: int| 0 <= a < b < v@.len() ==> v@[a] < v@[b]
            &&& forall|i: usize|
                v@.contains(i) <==> i < commands@.len() && cmd_matches(
                    cfg@,
                    m.roles@,
                    label_of(msg.content@, cfg.cmd_prefix@),
                    commands@[i as int],
                )
        }),

{
    if !has_prefix(msg.content.as_str(), cfg.cmd_prefix.as_str()) {
        return Dispatch::NotCommand;
    }
    let label = get_label(msg, cfg);
    let sender = match &msg.member {
        Some(m) => m,
        None => {
            return Dispatch::NoSender;
        },
    };
    let ghost lbl = label_of(msg.content@, cfg.cmd_prefix@);
    let n = commands.len();
    let mut v: Vec<usize> = Vec::new();
    let mut i: usize = 0;
    while i < n
        invariant
            i <= n,
            n == commands@.len(),
            cfg.wf(),
            lbl == label_of(msg.content@, cfg.cmd_prefix@),
            label@ == lbl,
            msg.member matches Some(m) && m.roles@ == sender.roles@,
            forall|a: int, b: int| 0 <= a < b < v@.len() ==> v@[a] < v@[b],
            forall|a: int| 0 <= a < v@.len() ==> v@[a] < i,
            forall|k: usize|
                v@.contains(k) <==> k < i && cmd_matches(cfg@, sender.roles@, lbl, commands@[k as int]),
        decreases n - i,
    {
        let cmd = &commands[i];
        let ghost pre = v@;
        if str_eq(cmd.label.as_str(), label) && cfg.user_has_perm(sender, cmd.perm.as_str()) {
            v.push(i);
            proof {
                assert forall|k: usize| v@.contains(k) implies (k < i + 1 && cmd_matches(
                    cfg@,
                    sender.roles@,
                    lbl,
                    commands@[k as int],
                )) by {
                    let idx = choose|idx: int| 0 <= idx < v@.len() && v@[idx] == k;
                    if idx < v@.len() - 1 {
                        assert(pre[idx] == k);
                        assert(pre.contains(k));
                    }
                }
                assert forall|k: usize| (k < i + 1 && cmd_matches(
                    cfg@,
                    sender.roles@,
                    lbl,
                    commands@[k as int],
                )) implies v@.contains(k) by {
                    if k < i {
                        assert(pre.contains(k));
                        let idx = choose|idx: int| 0 <= idx < pre.len() && pre[idx] == k;
                        assert(v@[idx] == k);
                    } else {
                        assert(v@[v@.len() - 1] == k);
                    }
                }
            }
        } else {
            proof {
                assert(!cmd_matches(cfg@, sender.roles@, lbl, commands@[i as int]));
            }
        }
        i += 1;
    }
    Dispatch::Invoke(v)
}

} // verus!
