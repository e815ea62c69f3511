//! Error kinds of the agent core.
//!
//! Every failure in this crate is a recoverable `Result`-style outcome: a
//! denied authorization is the expected answer to an unauthorized request,
//! not a crash condition.

use vstd::prelude::*;

verus! {

/// Error type for agent operations.
///
/// `InvalidIntent` marks a malformed or under-confidence intent at
/// generation or validation time; `PolicyViolation` marks an authorization
/// denial. The remaining kinds are reserved for the surrounding application
/// layers (storage, language model, voice, configuration).
#[derive(Debug, Clone, PartialEq, Eq)]
pub enum AgentError {
    Memory(String),
    Llm(String),
    Voice(String),
    PolicyViolation(String),
    InvalidIntent(String),
    Config(String),
    Other(String),
}

} // verus!
