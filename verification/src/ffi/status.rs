//! How a call of the C interface ends.

use vstd::prelude::*;

use crate::error::{error_text, SwmError};

verus! {

/// How a call ended.
#[derive(Debug, Clone, Copy, PartialEq, Eq, Structural)]
pub enum SwmStatus {
    Success,
    NullPointer,
    InvalidArgument,
    RuntimeError,
    Panic,
}

impl SwmStatus {
    /// The number of a status.
    pub open spec fn number(self) -> i32 {
        match self {
            SwmStatus::Success => 0,
            SwmStatus::NullPointer => 1,
            SwmStatus::InvalidArgument => 2,
            SwmStatus::RuntimeError => 3,
            SwmStatus::Panic => 4,
        }
    }

    pub fn code(self) -> (r: i32)
        ensures
            r == self.number(),
    {
        match self {
            SwmStatus::Success => 0,
            SwmStatus::NullPointer => 1,
            SwmStatus::InvalidArgument => 2,
            SwmStatus::RuntimeError => 3,
            SwmStatus::Panic => 4,
        }
    }
}

/// No two statuses have one number.
pub proof fn numbers_tell_statuses_apart(a: SwmStatus, b: SwmStatus)
    ensures
        a.number() == b.number() <==> a == b,
{
}

/// Why a call failed.
#[derive(Debug)]
pub struct FfiError {
    pub status: SwmStatus,
    pub message: String,
}

pub type FfiResult<T> = core::result::Result<T, FfiError>;

impl FfiError {
    /// The error has a status and a text.
    pub open spec fn is(self, status: SwmStatus, text: Seq<char>) -> bool {
        self.status == status && self.message@ == text
    }

    /// An argument that must point somewhere does not.
    pub fn null(name: &str) -> (r: Self)
        ensures
            r.is(SwmStatus::NullPointer, name@ + " pointer is null"@),
    {
        let mut message = String::from_str(name);
        message.append(" pointer is null");
        Self { status: SwmStatus::NullPointer, message }
    }

    /// An argument has a wrong value.
    pub fn invalid(text: &str) -> (r: Self)
        ensures
            r.is(SwmStatus::InvalidArgument, text@),
    {
        Self { status: SwmStatus::InvalidArgument, message: String::from_str(text) }
    }

    /// An argument has a wrong value.
    pub fn invalid_text(message: String) -> (r: Self)
        ensures
            r.is(SwmStatus::InvalidArgument, message@),
    {
        Self { status: SwmStatus::InvalidArgument, message }
    }

    /// The work failed.
    pub fn runtime(error: SwmError) -> (r: Self)
        ensures
            r.is(SwmStatus::RuntimeError, error.words()),
    {
        Self { status: SwmStatus::RuntimeError, message: error.message() }
    }

    /// The work failed for a reason that is given in words.
    pub fn runtime_text(message: String) -> (r: Self)
        ensures
            r.is(SwmStatus::RuntimeError, message@),
    {
        Self { status: SwmStatus::RuntimeError, message }
    }
}

/// What a failure of the library becomes.
pub open spec fn reports(error: SwmError, e: FfiError) -> bool {
    e.is(SwmStatus::RuntimeError, error.words())
}

/// Whether a call failed in the backend.
pub open spec fn backend_failed(e: FfiError) -> bool {
    exists|b: candle_core::Error| e.is(SwmStatus::RuntimeError, #[trigger] error_text(b))
}

/// Whether a call failed with one of the library's own texts.
pub open spec fn failed_saying(e: FfiError, text: Option<Seq<char>>) -> bool {
    e.status is RuntimeError && text == Some(e.message@)
}

/// Carries a result of the library over to the C interface.
pub fn carry<T>(r: crate::error::Result<T>) -> (o: FfiResult<T>)
    ensures
        r matches Ok(t) ==> o == Ok::<T, FfiError>(t),
        r matches Err(e) ==> o is Err && reports(e, o->Err_0) && (e is Backend ==> backend_failed(
            o->Err_0,
        )),
{
    match r {
        Ok(t) => Ok(t),
        Err(e) => {
            let out = FfiError::runtime(e);
            proof {
                if e is Backend {
                    assert(out.is(SwmStatus::RuntimeError, error_text(e->Backend_0)));
                }
            }
            Err(out)
        },
    }
}

/// A text in which each NUL is written as a backslash and a zero.
pub open spec fn escaped(text: Seq<char>) -> Seq<char>
    decreases text.len(),
{
    if text.len() == 0 {
        Seq::empty()
    } else if text.last() == '\0' {
        escaped(text.drop_last()) + "\\0"@
    } else {
        escaped(text.drop_last()).push(text.last())
    }
}

/// The last error as a text that a C string can hold.
pub fn escape_nul(text: &str) -> (r: String)
    ensures
        r@ == escaped(text@),
{
    let n: usize = text.unicode_len();
    let mut out = String::from_str("");
    let mut k: usize = 0;
    proof {
        reveal_strlit("");
        assert(out@ =~= escaped(text@.take(0)));
    }
    while k < n
        invariant
            k <= n,
            n == text@.len(),
            out@ == escaped(text@.take(k as int)),
        decreases n - k,
    {
        let c = text.get_char(k);
        proof {
            assert(text@.take(k + 1).drop_last() =~= text@.take(k as int));
        }
        if c == '\0' {
            out.append("\\0");
        } else {
            out.push(c);
        }
        k = k + 1;
    }
    proof {
        assert(text@.take(n as int) =~= text@);
    }
    out
}

/// A C string can hold any escaped text, and a text without NUL is kept as it
/// is.
pub proof fn escaped_texts_hold_no_nul(text: Seq<char>)
    ensures
        !escaped(text).contains('\0'),
        !text.contains('\0') ==> escaped(text) == text,
    decreases text.len(),
{
    reveal_strlit("\\0");
    if text.len() > 0 {
        let rest = text.drop_last();
        escaped_texts_hold_no_nul(rest);
        assert forall|k: int| 0 <= k < escaped(text).len() implies escaped(text)[k] != '\0' by {
            if k < escaped(rest).len() {
                assert(escaped(text)[k] == escaped(rest)[k]);
                assert(!escaped(rest).contains('\0'));
            }
        }
        if !text.contains('\0') {
            assert forall|k: int| 0 <= k < rest.len() implies rest[k] != '\0' by {
                assert(rest[k] == text[k]);
                assert(text.contains(text[k]));
            }
            assert(!rest.contains('\0'));
            assert(text.contains(text.last()));
            assert(escaped(text) =~= text);
        }
    }
}

/// How a call ended: well, with an error of its own, or with a panic.
pub enum CallOutcome {
    Finished,
    Failed(FfiError),
    Panicked,
}

/// The status of a call and the error that is left behind. A call that ends well
/// leaves none.
pub fn conclude(outcome: CallOutcome) -> (r: (SwmStatus, Option<String>))
    ensures
        outcome is Finished ==> r.0 is Success && r.1 is None,
        outcome matches CallOutcome::Failed(e) ==> r.0 == e.status && r.1 is Some && r.1->0@
            == escaped(e.message@),
        outcome is Panicked ==> r.0 is Panic && r.1 is Some && r.1->0@
            == "panic crossed stable-worldmodel C ABI"@,
{
    match outcome {
        CallOutcome::Finished => (SwmStatus::Success, None),
        CallOutcome::Failed(e) => (e.status, Some(escape_nul(e.message.as_str()))),
        CallOutcome::Panicked => (
            SwmStatus::Panic,
            Some(String::from_str("panic crossed stable-worldmodel C ABI")),
        ),
    }
}

} // verus!
