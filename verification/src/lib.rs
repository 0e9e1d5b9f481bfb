//! Execution engine of an interactive command-line shell.
//!
//! The library turns one line of typed input into a plan for a running
//! process graph: it tokenizes the line under shell quoting rules, extracts
//! redirections, classifies each pipeline stage as a builtin or an external
//! executable, and lays out the file-descriptor wiring of a multi-stage
//! pipeline.  Everything here is pure decision logic; the surrounding
//! program performs the actual file, terminal and process work and hands
//! the results back as plain values.

pub mod builtins;
pub mod complete;
pub mod pipeline;
pub mod redirect;
pub mod resolve;
pub mod state;
pub mod strutil;
pub mod tokenize;

use vstd::prelude::*;

verus! {

/// Quoting mode of the tokenizer's state machine.
#[derive(Clone, Copy, Debug, PartialEq, Eq, Structural)]
pub enum QuoteState {
    /// Outside any quotes.
    Unquoted,
    /// Inside single quotes: every character is literal.
    Single,
    /// Inside double quotes: a limited set of backslash escapes applies.
    Double,
}

} // verus!
