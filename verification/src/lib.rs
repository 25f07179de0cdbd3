//! Alias environments: named, mutually exclusive collections of shell aliases,
//! and the shell statements that move a session from one to another.

pub mod commands;
pub mod emitter;
pub mod error;
pub mod name;
pub mod record;
pub mod store;
pub mod text;
pub mod tracker;
