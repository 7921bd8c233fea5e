//! Provisional ids for outgoing messages.

use crate::text::{lowercase, to_lowercase};
use vstd::prelude::*;

verus! {

/// `uuid::Uuid::new_v4`, written out by its `Display` impl: a random
/// identifier in the hyphenated form, which is 36 characters long. Which
/// identifier comes back is not stated. uuid panics on a machine that
/// gives it no random bytes.
#[verifier::external_body]
pub(crate) fn random_uuid_text() -> (text: String)
    ensures
        text@.len() == 36,
{
    uuid::Uuid::new_v4().to_string()
}

/// A fresh id for a message that the server has not named yet. It is
/// never empty.
pub fn new_provisional_id() -> (id: String)
    ensures
        exists|raw: Seq<char>| raw.len() == 36 && id@ == lowercase(raw),
        id@.len() > 0,
{
    let raw = random_uuid_text();
    to_lowercase(raw.as_str())
}

} // verus!
