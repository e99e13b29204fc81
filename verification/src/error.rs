//! The closed taxonomy of failure kinds that every fallible operation
//! in this crate reports through.

use vstd::prelude::*;

verus! {

/// What went wrong during a file read, as far as this crate's recovery
/// policy needs to distinguish: a missing file is auto-healed with a
/// default configuration, anything else is fatal at startup.
#[derive(Clone, Copy, Debug, PartialEq, Eq, Structural)]
pub enum IoKind {
    /// The file does not exist.
    NotFound,
    /// The file exists but could not be read (permissions, encoding, ...).
    Other,
}

/// The closed set of failure kinds. Every fallible operation returns one
/// of these; callers pattern-match on the kind to decide recovery.
#[derive(Clone, Copy, Debug, PartialEq, Eq, Structural)]
pub enum Error {
    /// An I/O operation failed.
    Io(IoKind),
    /// The remote messaging platform rejected or failed a call.
    Discord,
    /// A value could not be serialized to the configuration text format.
    TomlSerialize,
    /// Configuration text was malformed or missing a required field.
    TomlDeserialize,
}

/// What `describe` returns for each kind.
pub open spec fn spec_describe(e: Error) -> Seq<char> {
    match e {
        Error::Io(IoKind::NotFound) => "i/o error: file not found"@,
        Error::Io(IoKind::Other) => "i/o error"@,
        Error::Discord => "the messaging platform reported an error"@,
        Error::TomlSerialize => "could not serialize the configuration"@,
        Error::TomlDeserialize => "could not deserialize the configuration"@,
    }
}

impl Error {
    /// A short human-readable account of the failure, for log lines.
    pub fn describe(&self) -> (s: String)
        ensures
            s@ == spec_describe(*self),
    {
        match self {
            Error::Io(IoKind::NotFound) => "i/o error: file not found".to_owned(),
            Error::Io(IoKind::Other) => "i/o error".to_owned(),
            Error::Discord => "the messaging platform reported an error".to_owned(),
            Error::TomlSerialize => "could not serialize the configuration".to_owned(),
            Error::TomlDeserialize => "could not deserialize the configuration".to_owned(),
        }
    }
}

} // verus!
