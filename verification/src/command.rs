//! Command descriptors, the outcomes a handler can report, and the
//! mapping from an outcome to the dispatcher's side effect.

use vstd::prelude::*;
use crate::error::Error;

verus! {

/// A command that users can type in chat. The descriptor is immutable:
/// built once at startup as part of the registry and never changed.
/// The handler itself lives with the platform glue; the dispatcher
/// reports which descriptors to invoke and maps each handler outcome
/// to a side effect through [`Command::exec`].
#[derive(Clone)]
pub struct Command {
    /// What users type to invoke the command (after the prefix).
    pub label: String,
    /// A short summary of what the command does.
    pub desc: String,
    /// A fuller explanation, shown when a user invokes the command with
    /// invalid syntax.
    pub help: String,
    /// The permission a role must grant to execute the command.
    pub perm: String,
}

/// The possible outcomes of a user invoking a command.
pub enum Outcome {
    /// The command executed successfully with no problems.
    Success,
    /// The user invoked the command with invalid syntax.
    SyntaxError,
    /// The user supplied a structurally valid but semantically wrong
    /// argument; the explanation is shown to the user.
    InvalidArgument(String),
    /// An error occurred that was not the user's fault.
    Failure(Error),
}

/// The side effect the dispatcher owes after a command was invoked.
pub enum Effect {
    /// Nothing to do: no reply, no log entry.
    Silent,
    /// Reply to the originating channel with this text.
    Reply(String),
    /// Log this command label together with this error; no reply.
    Log(String, Error),
}

impl Command {
    /// Maps the outcome a handler reported for this command to the side
    /// effect owed: success is silent, a syntax error replies with the
    /// command's help text, an invalid argument replies with its
    /// explanation, and an internal failure is logged under the
    /// command's label.
    pub fn exec(&self, outcome: Outcome) -> (e: Effect)
        ensures
            outcome is Success ==> e is Silent,
            outcome is SyntaxError ==> (e matches Effect::Reply(t) && t@ == self.help@),
            outcome matches Outcome::InvalidArgument(x) ==> (e matches Effect::Reply(t) && t@
                == x@),
            outcome matches Outcome::Failure(err) ==> (e matches Effect::Log(l, e2) && l@
                == self.label@ && e2 == err),
    {
        match outcome {
            Outcome::Success => Effect::Silent,
            Outcome::SyntaxError => Effect::Reply(self.help.clone()),
            Outcome::InvalidArgument(explain) => Effect::Reply(explain),
            Outcome::Failure(why) => Effect::Log(self.label.clone(), why),
        }
    }
}

} // verus!
