//! Which files changed between two states of a repository, for a CI run.
//!
//! The library decides which two commits to compare, with which operator, and
//! how the resulting deltas are classified and filtered. It performs no I/O:
//! whatever has to be read from the repository or fetched from the remote is
//! asked for as a query and handed back as a reply.

pub mod args;
pub mod change;
pub mod deepen;
pub mod diff;
pub mod environment;
pub mod glob_filter;
pub mod protocol;
pub mod pull_request;
pub mod push;
pub mod resolve;
pub mod run;
pub mod text;
pub mod version;
