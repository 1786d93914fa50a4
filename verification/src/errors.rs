//! The error taxonomy of the ledger engine.
//!
//! Three error kinds, each carrying an optional message and an optional
//! snippet of the text or entry it is about: `ParseError` for text that
//! could not be understood, `ValidationError` for well-formed input that
//! breaks a rule of the ledger, and `ProcessingError` for valid input
//! whose required values cannot be computed. `SilverfoxError` collapses
//! the three into one sum type for callers.

use vstd::prelude::*;

verus! {

/// An error found while turning ledger text into structured data.
#[derive(Clone, Debug, PartialEq, Eq)]
pub struct ParseError {
    pub context: Option<String>,
    pub message: Option<String>,
}

impl ParseError {
    /// Returns a fresh, blank ParseError.
    pub fn new() -> (e: Self)
        ensures
            e.context is None,
            e.message is None,
    {
        ParseError { context: None, message: None }
    }

    /// Sets the message of the error, returning itself for the convenience of chaining.
    pub fn set_message(self, message: &str) -> (e: Self)
        ensures
            e.message matches Some(m) && m@ == message@,
            e.context == self.context,
    {
        ParseError { message: Some(message.to_owned()), ..self }
    }

    /// Sets the context (chunk) of the error, returning itself for the convenience of chaining.
    pub fn set_context(self, context: &str) -> (e: Self)
        ensures
            e.context matches Some(c) && c@ == context@,
            e.message == self.message,
    {
        ParseError { context: Some(context.to_owned()), ..self }
    }
}

impl Default for ParseError {
    /// Returns a fresh, blank ParseError.
    fn default() -> (e: Self)
        ensures
            e.context is None,
            e.message is None,
    {
        ParseError { context: None, message: None }
    }
}

/// An error found during the validation phase of ledger construction:
/// the input was understood, but breaks a rule of the ledger.
#[derive(Clone, Debug, PartialEq, Eq)]
pub struct ValidationError {
    pub context: Option<String>,
    pub message: Option<String>,
}

impl ValidationError {
    /// Returns a fresh, blank ValidationError.
    pub fn new() -> (e: Self)
        ensures
            e.context is None,
            e.message is None,
    {
        ValidationError { context: None, message: None }
    }

    /// Sets the message of the error, returning itself for the convenience of chaining.
    pub fn set_message(self, message: &str) -> (e: Self)
        ensures
            e.message matches Some(m) && m@ == message@,
            e.context == self.context,
    {
        ValidationError { message: Some(message.to_owned()), ..self }
    }

    /// Sets the context (chunk) of the error, returning itself for the convenience of chaining.
    pub fn set_context(self, context: &str) -> (e: Self)
        ensures
            e.context matches Some(c) && c@ == context@,
            e.message == self.message,
    {
        ValidationError { context: Some(context.to_owned()), ..self }
    }
}

impl Default for ValidationError {
    /// Returns a fresh, blank ValidationError.
    fn default() -> (e: Self)
        ensures
            e.context is None,
            e.message is None,
    {
        ValidationError { context: None, message: None }
    }
}

/// An error found while applying valid entries to the ledger: the input
/// is valid, but a value the engine needs cannot be computed from it.
#[derive(Clone, Debug, PartialEq, Eq)]
pub struct ProcessingError {
    pub context: Option<String>,
    pub message: Option<String>,
}

impl ProcessingError {
    /// Returns a fresh, blank ProcessingError.
    pub fn new() -> (e: Self)
        ensures
            e.context is None,
            e.message is None,
    {
        ProcessingError { context: None, message: None }
    }

    /// Sets the message of the error, returning itself for the convenience of chaining.
    pub fn set_message(self, message: &str) -> (e: Self)
        ensures
            e.message matches Some(m) && m@ == message@,
            e.context == self.context,
    {
        ProcessingError { message: Some(message.to_owned()), ..self }
    }

    /// Sets the context (chunk) of the error, returning itself for the convenience of chaining.
    pub fn set_context(self, context: &str) -> (e: Self)
        ensures
            e.context matches Some(c) && c@ == context@,
            e.message == self.message,
    {
        ProcessingError { context: Some(context.to_owned()), ..self }
    }
}

impl Default for ProcessingError {
    /// Returns a fresh, blank ProcessingError.
    fn default() -> (e: Self)
        ensures
            e.context is None,
            e.message is None,
    {
        ProcessingError { context: None, message: None }
    }
}

/// One sum type over every error the engine can return.
#[derive(Clone, Debug, PartialEq, Eq)]
pub enum SilverfoxError {
    /// A plain message with no structure of its own.
    Basic(String),
    Parse(ParseError),
    Validation(ValidationError),
    Processing(ProcessingError),
}

impl From<ParseError> for SilverfoxError {
    fn from(err: ParseError) -> (e: Self) {
        SilverfoxError::Parse(err)
    }
}

impl vstd::std_specs::convert::FromSpecImpl<ParseError> for SilverfoxError {
    open spec fn obeys_from_spec() -> bool {
        true
    }

    open spec fn from_spec(err: ParseError) -> Self {
        SilverfoxError::Parse(err)
    }
}

impl From<ValidationError> for SilverfoxError {
    fn from(err: ValidationError) -> (e: Self) {
        SilverfoxError::Validation(err)
    }
}

impl vstd::std_specs::convert::FromSpecImpl<ValidationError> for SilverfoxError {
    open spec fn obeys_from_spec() -> bool {
        true
    }

    open spec fn from_spec(err: ValidationError) -> Self {
        SilverfoxError::Validation(err)
    }
}

impl From<ProcessingError> for SilverfoxError {
    fn from(err: ProcessingError) -> (e: Self) {
        SilverfoxError::Processing(err)
    }
}

impl vstd::std_specs::convert::FromSpecImpl<ProcessingError> for SilverfoxError {
    open spec fn obeys_from_spec() -> bool {
        true
    }

    open spec fn from_spec(err: ProcessingError) -> Self {
        SilverfoxError::Processing(err)
    }
}

/// A shorthand for results whose error side is the engine's sum type.
pub type SilverfoxResult<T> = Result<T, SilverfoxError>;

} // verus!
