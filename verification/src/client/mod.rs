//! The System One endpoint: what a request carries and what comes back.
use vstd::prelude::*;

pub mod http;

verus! {

/// Where requests go unless told otherwise.
pub const ENDPOINT: &'static str = "https://api.typesafe.ai/v1/systemone";

/// The model asked unless told otherwise.
pub const DEFAULT_MODEL: &'static str = "jev-latest";

/// What one evaluation answered.
#[derive(Debug, Clone)]
pub struct Evaluation<A> {
    /// The model that answered.
    pub model: String,
    /// The answers, keyed as the questions were.
    pub answers: A,
    /// What answering cost.
    pub usage: Usage,
}

/// What an evaluation cost, in tokens.
#[derive(Debug, Clone, Copy, PartialEq, Eq, Structural)]
pub struct Usage {
    /// Tokens read.
    pub input_tokens: u64,
    /// Tokens written.
    pub output_tokens: u64,
}

} // verus!
