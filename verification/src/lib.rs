//! A line-oriented command interpreter: a shell-style tokenizer
//! (quoting, escaping, variable expansion) together with the command
//! dispatcher that consumes its output.
//!
//! Everything that decides or computes lives here, verified: the
//! tokenizer state machine, the search-path candidate construction and
//! the per-line dispatch decision. The surrounding program performs the
//! reads, writes, directory changes and process spawns that these
//! decisions call for.

pub mod dispatch;
pub mod env;
pub mod laws;
pub mod path;
pub mod text;
pub mod token;
