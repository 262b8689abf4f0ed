//! A verified number drawer: draws a value from an inclusive range that has
//! not been drawn before, against a persisted history of past draws.
//!
//! The persisted store is modeled as the sequence of raw lines it holds
//! ([`store::Store`]); the set of past draws is the set of distinct non-empty
//! trimmed lines ([`store::history_set`]). Drawing rejection-samples a random
//! value and falls back to a linear scan, so it terminates whenever the range
//! is not fully covered by the history.

pub mod draw;
pub mod flow;
pub mod history;
pub mod store;
pub mod token;
