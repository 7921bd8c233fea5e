//! Reading the wall clock.

use vstd::prelude::*;

verus! {

/// `chrono::Utc::now().timestamp_micros()`: the current time in microseconds
/// since the Unix epoch. Nothing is stated of the reading. chrono panics
/// on a machine whose clock stands before the Unix epoch.
#[verifier::external_body]
pub(crate) fn now_micros() -> (micros: i64) {
    chrono::Utc::now().timestamp_micros()
}

/// `chrono::Local::now().format(pattern)`, written out: the present local
/// time in the shape that `pattern` asks for. Nothing is stated of the
/// text. `pattern` must be one that chrono can format, or writing it out
/// panics.
#[verifier::external_body]
pub(crate) fn local_stamp(pattern: &str) -> (stamp: String)
    requires
        pattern@ == "%Y%m%d_%H%M%S"@,
{
    chrono::Local::now().format(pattern).to_string()
}

} // verus!
