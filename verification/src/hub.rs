//! Published checkpoints.

use vstd::prelude::*;

use crate::error::{Result, SwmError};

verus! {

/// The files of a published checkpoint.
#[derive(Debug, Clone)]
pub struct StableWorldModelFiles {
    pub config: String,
    pub weights: String,
}

impl StableWorldModelFiles {
    /// The names of the files in a repository.
    pub fn names() -> (r: Self)
        ensures
            r.config@ == "config.json"@,
            r.weights@ == "weights.pt"@,
    {
        Self { config: String::from_str("config.json"), weights: String::from_str("weights.pt") }
    }
}

/// Whether a text has an owner and a name with a slash between them.
pub open spec fn is_repo_id(s: Seq<char>) -> bool {
    s.contains('/')
}

/// Whether a repository id names its owner.
pub fn check_repo_id(repo_id: &str) -> (r: Result<()>)
    ensures
        r is Ok <==> is_repo_id(repo_id@),
        r matches Err(e) ==> e.says(
            "expected Hugging Face model repo id like owner/name, got "@ + repo_id@,
        ),
{
    let n: usize = repo_id.unicode_len();
    let mut i: usize = 0;
    while i < n
        invariant
            i <= n,
            n == repo_id@.len(),
            forall|j: int| 0 <= j < i ==> repo_id@[j] != '/',
        decreases n - i,
    {
        if repo_id.get_char(i) == '/' {
            proof {
                assert(repo_id@[i as int] == '/');
            }
            return Ok(());
        }
        i = i + 1;
    }
    let mut text = String::from_str("expected Hugging Face model repo id like owner/name, got ");
    text.append(repo_id);
    Err(SwmError::Message(text))
}

} // verus!
