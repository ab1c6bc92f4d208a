//! Base64 transport encoding of audio bytes.

use base64::Engine as _;
use vstd::prelude::*;

verus! {

/// The standard base64 text of a byte string, with padding.
pub uninterp spec fn base64_encoded(data: Seq<u8>) -> Seq<char>;

/// The byte string that a text is the standard, canonically padded base64 of,
/// or `None` where it is no such text.
pub uninterp spec fn base64_decoded(text: Seq<char>) -> Option<Seq<u8>>;

/// The length of the base64 text of `len` bytes.
pub open spec fn base64_len(len: nat) -> nat {
    4 * ((len + 2) / 3)
}

/// `encode` of `base64::engine::general_purpose::STANDARD`. The text depends
/// on the bytes alone, and decoding it with the same engine gives them back.
/// The text must fit in memory, for otherwise `encode` panics.
#[verifier::external_body]
pub(crate) fn encode_base64(data: &[u8]) -> (r: String)
    requires
        base64_len(data@.len()) <= isize::MAX,
    ensures
        r@ == base64_encoded(data@),
        base64_decoded(r@) == Some(data@),
{
    base64::engine::general_purpose::STANDARD.encode(data)
}

/// `decode` of `base64::engine::general_purpose::STANDARD`. The outcome
/// depends on the text alone; on malformed text there are no bytes.
#[verifier::external_body]
pub(crate) fn decode_base64(text: &str) -> (r: Option<Vec<u8>>)
    ensures
        match r {
            Some(data) => base64_decoded(text@) == Some(data@),
            None => base64_decoded(text@) is None,
        },
{
    base64::engine::general_purpose::STANDARD.decode(text).ok()
}

} // verus!
