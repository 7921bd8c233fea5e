//! Base64 in the standard alphabet with padding.

use vstd::prelude::*;

verus! {

/// The most bytes that are encoded in one piece. The encoded text of so
/// many bytes has a length that fits a `usize` on every machine.
pub const MAX_ENCODABLE_BYTES: usize = 0x3fff_ffff;

/// The base64 text of a byte string, standard alphabet, padded.
pub uninterp spec fn base64_standard(bytes: Seq<u8>) -> Seq<char>;

/// The bytes that a base64 text stands for, or `None` for a text that is
/// no padded base64 of the standard alphabet.
pub uninterp spec fn base64_decoded(text: Seq<char>) -> Option<Seq<u8>>;

/// `base64::engine::general_purpose::STANDARD.encode`: the result is the
/// padded standard base64 text of the bytes and depends on nothing else.
/// The call panics only when the length of the text overflows `usize`,
/// which the bound on the input rules out.
#[verifier::external_body]
pub(crate) fn encode_standard(bytes: &[u8]) -> (text: String)
    requires
        bytes@.len() <= MAX_ENCODABLE_BYTES,
    ensures
        text@ == base64_standard(bytes@),
{
    base64::Engine::encode(&base64::engine::general_purpose::STANDARD, bytes)
}

/// `base64::engine::general_purpose::STANDARD.decode`: the bytes of a
/// padded standard base64 text, or `None` where the crate reports an error.
/// The result depends on the text alone.
#[verifier::external_body]
pub(crate) fn decode_standard(text: &str) -> (bytes: Option<Vec<u8>>)
    ensures
        match bytes {
            Some(b) => base64_decoded(text@) == Some(b@),
            None => base64_decoded(text@) is None,
        },
{
    base64::Engine::decode(&base64::engine::general_purpose::STANDARD, text).ok()
}

/// The text under which a byte string travels: its base64 text, or nothing
/// for a byte string longer than `MAX_ENCODABLE_BYTES`.
pub open spec fn travel_text(bytes: Seq<u8>) -> Seq<char> {
    if bytes.len() <= MAX_ENCODABLE_BYTES {
        base64_standard(bytes)
    } else {
        Seq::empty()
    }
}

/// Encodes a byte string for travel as text.
pub fn encode_for_travel(bytes: &[u8]) -> (text: String)
    ensures
        text@ == travel_text(bytes@),
{
    if bytes.len() <= MAX_ENCODABLE_BYTES {
        encode_standard(bytes)
    } else {
        String::new()
    }
}

/// The bytes behind a travel text: what it decodes to, or nothing where it
/// does not decode.
pub open spec fn travel_bytes(text: Seq<char>) -> Seq<u8> {
    match base64_decoded(text) {
        Some(bytes) => bytes,
        None => Seq::empty(),
    }
}

/// Decodes a travel text; a text that does not decode gives no bytes.
pub fn decode_from_travel(text: &str) -> (bytes: Vec<u8>)
    ensures
        bytes@ == travel_bytes(text@),
{
    match decode_standard(text) {
        Some(bytes) => bytes,
        None => Vec::new(),
    }
}

} // verus!
