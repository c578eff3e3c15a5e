//! The boundary text encoding: audio buffers cross the system boundary as
//! standard-alphabet, padded base64 text. The two transforms live in the
//! `base64` crate; this module gives each a name and a contract, and the rest
//! of the library is verified against those contracts.

use vstd::prelude::*;
use base64::Engine;

verus! {

/// What the standard base64 decoder yields for a text: the byte buffer it
/// encodes, or nothing when the text is not well-formed standard base64.
pub uninterp spec fn b64_decode_of(s: Seq<char>) -> Option<Seq<u8>>;

/// The standard-alphabet, padded base64 text of a byte buffer.
pub uninterp spec fn b64_encode_of(b: Seq<u8>) -> Seq<char>;

/// Relies on `base64::engine::general_purpose::STANDARD.decode`: a pure
/// function of the input text that returns the decoded bytes exactly when the
/// text is well-formed standard base64, and an error otherwise.
#[verifier::external_body]
pub(crate) fn base64_decode(input: &str) -> (r: Option<Vec<u8>>)
    ensures
        r matches Some(v) ==> b64_decode_of(input@) == Some(v@),
        r is None ==> b64_decode_of(input@) is None,
{
    match base64::engine::general_purpose::STANDARD.decode(input) {
        Ok(v) => Some(v),
        Err(_) => None,
    }
}

/// Relies on `base64::engine::general_purpose::STANDARD.encode`: a pure
/// function of the input bytes.
#[verifier::external_body]
pub(crate) fn base64_encode(input: &[u8]) -> (r: String)
    ensures
        r@ == b64_encode_of(input@),
{
    base64::engine::general_purpose::STANDARD.encode(input)
}

} // verus!
