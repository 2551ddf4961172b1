//! Values, errors and completion records, as far as a script looks at them.

use vstd::prelude::*;

verus! {

/// A value of the language. Only the two that a script itself hands to a call
/// frame are told apart; the engine keeps every other one under a number.
#[derive(Clone, Copy, PartialEq, Eq, Structural, Debug)]
pub enum JsValue {
    /// `undefined`.
    Undefined,
    /// `null`.
    Null,
    /// Any other value, by the number under which the engine keeps it.
    Held(u64),
}

/// The native error types that a script throws itself.
#[derive(Clone, Copy, PartialEq, Eq, Structural, Debug)]
pub enum ErrorKind {
    /// `SyntaxError`.
    Syntax,
    /// `TypeError`.
    Type,
}

/// Something thrown.
#[derive(PartialEq, Eq, Debug)]
pub enum JsError {
    /// A native error and its message.
    Native {
        /// The type of the error.
        kind: ErrorKind,
        /// Its message.
        message: String,
    },
    /// A value that the engine threw.
    Thrown(JsValue),
}

/// What a fallible operation gives.
pub type JsResult<T> = Result<T, JsError>;

impl JsError {
    /// This is a native error of type `kind` with the message `message`.
    pub open spec fn is_native(self, kind: ErrorKind, message: Seq<char>) -> bool {
        self matches JsError::Native { kind: k, message: m } && k == kind && m@ == message
    }

    /// A `SyntaxError`.
    pub fn syntax(message: String) -> (error: JsError)
        ensures
            error.is_native(ErrorKind::Syntax, message@),
    {
        JsError::Native { kind: ErrorKind::Syntax, message }
    }

    /// A `TypeError`.
    pub fn type_error(message: &str) -> (error: JsError)
        ensures
            error.is_native(ErrorKind::Type, message@),
    {
        JsError::Native { kind: ErrorKind::Type, message: message.to_owned() }
    }
}

/// How a run of the virtual machine ended.
#[derive(PartialEq, Eq, Debug)]
pub enum CompletionRecord {
    /// It came to the end of the code.
    Normal(JsValue),
    /// It returned.
    Return(JsValue),
    /// It threw.
    Throw(JsError),
}

impl CompletionRecord {
    /// The result that this record stands for.
    pub open spec fn outcome(self) -> JsResult<JsValue> {
        match self {
            CompletionRecord::Normal(value) => Ok(value),
            CompletionRecord::Return(value) => Ok(value),
            CompletionRecord::Throw(error) => Err(error),
        }
    }

    /// Turns this record into the result that it stands for.
    pub fn consume(self) -> (result: JsResult<JsValue>)
        ensures
            result == self.outcome(),
    {
        match self {
            CompletionRecord::Normal(value) => Ok(value),
            CompletionRecord::Return(value) => Ok(value),
            CompletionRecord::Throw(error) => Err(error),
        }
    }
}

} // verus!
