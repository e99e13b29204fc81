//! A command-driven chat bot core: a command registry with role-based
//! permissions, a per-message dispatcher, a configuration store persisted
//! as TOML, and the error taxonomy that threads through all of them.

pub mod command;
pub mod config;
pub mod dispatch;
pub mod error;
pub mod text;
pub mod toml_doc;
pub mod vote;
