//! The library's error: a message of its own, or an error of the tensor backend.

use vstd::prelude::*;

verus! {

#[verifier::external_type_specification]
#[verifier::external_body]
pub struct ExBackendError(candle_core::Error);

/// Why an operation did not succeed.
#[derive(Debug)]
pub enum SwmError {
    /// A check of this library failed; the text says which.
    Message(String),
    /// A tensor operation failed.
    Backend(candle_core::Error),
}

pub type Result<T> = core::result::Result<T, SwmError>;

impl SwmError {
    /// The error is a message with this text.
    pub open spec fn says(self, text: Seq<char>) -> bool {
        self matches SwmError::Message(m) && m@ == text
    }

    /// The text of the error.
    pub open spec fn words(self) -> Seq<char> {
        match self {
            SwmError::Message(m) => m@,
            SwmError::Backend(e) => error_text(e),
        }
    }

    /// The text of the error.
    pub fn message(&self) -> (r: String)
        ensures
            r@ == self.words(),
    {
        match self {
            SwmError::Message(m) => m.clone(),
            SwmError::Backend(e) => backend_text(e),
        }
    }
}

/// What an error of the backend says of itself.
pub uninterp spec fn error_text(e: candle_core::Error) -> Seq<char>;

/// `candle_core::Error` written with `to_string`. The text is given a name and
/// nothing else is claimed of it: it belongs to the backend.
#[verifier::external_body]
fn backend_text(e: &candle_core::Error) -> (r: String)
    ensures
        r@ == error_text(*e),
{
    e.to_string()
}

/// An error whose text is fixed.
pub fn message(text: &str) -> (r: SwmError)
    ensures
        r.says(text@),
{
    SwmError::Message(String::from_str(text))
}

/// Carries a backend result over to the library's error.
pub fn lift<T>(r: core::result::Result<T, candle_core::Error>) -> (o: Result<T>)
    ensures
        r matches Ok(t) ==> o == Ok::<T, SwmError>(t),
        r matches Err(e) ==> o == Err::<T, SwmError>(SwmError::Backend(e)),
{
    match r {
        Ok(t) => Ok(t),
        Err(e) => Err(SwmError::Backend(e)),
    }
}

} // verus!
