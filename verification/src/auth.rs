//! Telling authentication failures from other errors.

use crate::text::{contains, contains_text};
use vstd::prelude::*;

verus! {

/// An error text that carries one of the signatures of a rejected login.
pub open spec fn auth_failure_text(error: Seq<char>) -> bool {
    ||| contains_text(error, "authentication credential"@)
    ||| contains_text(error, "401"@)
    ||| contains_text(error, "403"@)
}

/// Whether an error text reports that the credentials were rejected.
pub fn is_auth_error(error: &str) -> (auth: bool)
    ensures
        auth == auth_failure_text(error@),
{
    contains(error, "authentication credential") || contains(error, "401") || contains(
        error,
        "403",
    )
}

/// An error text of a send whose answer could not be decoded although the
/// message very likely went out.
pub open spec fn undecodable_answer_text(error: Seq<char>) -> bool {
    contains_text(error, "decode"@) || contains_text(error, "end group"@)
}

/// Whether a failed send is to be counted as delivered: the answer was
/// unreadable, the request itself was not refused.
pub fn is_undecodable_answer(error: &str) -> (lenient: bool)
    ensures
        lenient == undecodable_answer_text(error@),
{
    contains(error, "decode") || contains(error, "end group")
}

} // verus!
