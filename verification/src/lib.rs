//! Version-control status context for a prompt renderer: snapshotting the
//! state of a discovered git repository, and resolving the closest jj
//! (Jujutsu) bookmarks through a delimiter-encoded template protocol.
//!
//! The crate holds the decision and decoding logic only. Running external
//! processes and reading repositories from disk are its callers' work: the
//! functions here build the exact invocations to run and decode the captured
//! output they produced.

pub mod command;
pub mod git;
pub mod jj;
pub mod text;
