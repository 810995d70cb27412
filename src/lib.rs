//! A store of named shell commands, and the policy that resolves a bare name
//! to one stored command.

pub mod error;
pub mod rows;
pub mod command;
pub mod cli;
pub mod text;
pub mod resolver;
pub mod sqlite;
pub mod command_store;
