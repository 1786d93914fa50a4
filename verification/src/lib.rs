//! A plaintext, double-entry personal-finance ledger with envelope
//! budgeting: money in an account can be earmarked into named envelopes
//! that fill or drain automatically according to a due-date schedule and
//! a funding policy.
//!
//! The crate holds the bookkeeping engine itself. Reading files, the
//! textual grammar, and display formatting live outside the crate; they
//! exchange plain values with it.

pub mod account;
pub mod amount;
pub mod date;
pub mod entry;
pub mod envelope;
pub mod errors;
pub mod fmt;
pub mod frequency;
pub mod ledger;
pub mod posting;
pub mod rules;
pub mod utils;
