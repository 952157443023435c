//! Suggestion index and query-matching engine of an interactive launcher.
pub mod builtin;
pub mod cache;
pub mod command;
pub mod desktop;
pub mod executable;
pub mod help;
pub mod program;
pub mod session;
pub mod suggestion;
pub mod text;
pub mod timedate;
