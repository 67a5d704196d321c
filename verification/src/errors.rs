//! The error type that constructors, profilers and the runtime share.

use vstd::prelude::*;

verus! {

/// What can go wrong in the collection of metrics.
#[derive(Debug)]
pub enum CoreError {
    /// A required text (a key or a unit) is empty. Holds the name of the field.
    EmptyField(String),
    /// A metric batch was given more values than it can hold. Holds the number of values.
    TooManyValues(usize),
    /// A session in the given state does not accept the given operation.
    InvalidStateTransition {
        /// The name of the state.
        state: String,
        /// The name of the operation.
        operation: String,
    },
    /// Anything that failed at run time. Holds the message.
    Runtime(String),
}

/// A message that goes with an error.
pub open spec fn error_text(error: CoreError) -> Seq<char> {
    match error {
        CoreError::EmptyField(field) => field@ + " must not be empty"@,
        CoreError::TooManyValues(count) => crate::number::decimal(count as nat)
            + " values exceed the capacity of a metric batch"@,
        CoreError::InvalidStateTransition { state, operation } => "cannot "@ + operation@
            + " while "@ + state@,
        CoreError::Runtime(message) => message@,
    }
}

/// Whether an error is a run-time failure with the given message.
pub open spec fn is_runtime(error: CoreError, message: Seq<char>) -> bool {
    error matches CoreError::Runtime(text) && text@ == message
}

/// Whether an error says that the named field is empty.
pub open spec fn is_empty_field(error: CoreError, field: Seq<char>) -> bool {
    error matches CoreError::EmptyField(text) && text@ == field
}

impl CoreError {
    /// The message that goes with the error.
    pub fn message(&self) -> (r: String)
        ensures
            r@ == error_text(*self),
    {
        match self {
            CoreError::EmptyField(field) => {
                let mut out = field.clone();
                out.append(" must not be empty");
                out
            },
            CoreError::TooManyValues(count) => {
                let mut out = crate::number::write_u64(*count as u64);
                out.append(" values exceed the capacity of a metric batch");
                out
            },
            CoreError::InvalidStateTransition { state, operation } => {
                let mut out = String::from_str("cannot ");
                out.append(operation.as_str());
                out.append(" while ");
                out.append(state.as_str());
                out
            },
            CoreError::Runtime(message) => message.clone(),
        }
    }

    /// A run-time failure with the given message.
    pub fn runtime(message: &str) -> (r: CoreError)
        ensures
            is_runtime(r, message@),
    {
        CoreError::Runtime(String::from_str(message))
    }
}

} // verus!
