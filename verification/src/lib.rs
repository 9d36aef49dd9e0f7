//! Building blocks for a code-review helper: a bounded circular queue for
//! task scheduling, git diff parsing, file filtering, review context and
//! prompt assembly.

pub mod queue;
pub mod text;
pub mod git;
pub mod context;
pub mod prompt;
pub mod client;
pub mod output;
pub mod filter;
