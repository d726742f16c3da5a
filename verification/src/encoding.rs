//! The base64 text of a payload.

use crate::text::is_ascii_bytes;
use base64::Engine;
use vstd::prelude::*;

verus! {

/// The base64 text of `data`, in the standard alphabet and with padding, as
/// the `base64` crate's `STANDARD` engine writes it.
pub uninterp spec fn base64_standard(data: Seq<u8>) -> Seq<u8>;

/// The number of base64 characters that `n` bytes are written in: four for
/// every three bytes, the last group padded.
pub open spec fn base64_len(n: nat) -> nat {
    (n + 2) / 3 * 4
}

/// Whether the base64 text of `n` bytes has a length that a `usize` holds.
pub open spec fn encodable_len(n: nat) -> bool {
    base64_len(n) <= usize::MAX
}

/// Whether the base64 text of `len` bytes has a length that a `usize` holds.
pub fn can_encode(len: usize) -> (r: bool)
    ensures
        r == encodable_len(len as nat),
{
    let groups = if len % 3 == 0 {
        len / 3
    } else {
        len / 3 + 1
    };
    assert(groups == (len + 2) / 3);
    groups <= usize::MAX / 4
}

/// Calls `Engine::encode` of the `base64` crate on its `STANDARD` engine and
/// hands the string's bytes out. The text is named [`base64_standard`]. Of it
/// the contract claims its length, which the crate computes before it
/// encodes, and that it is ASCII, since the alphabet and the padding
/// character are. Lengths whose text no `usize` can measure are left out: on
/// them the crate panics.
#[verifier::external_body]
pub(crate) fn encode_standard(data: &[u8]) -> (text: Vec<u8>)
    requires
        encodable_len(data@.len()),
    ensures
        text@ == base64_standard(data@),
        text@.len() == base64_len(data@.len()),
        is_ascii_bytes(text@),
{
    base64::engine::general_purpose::STANDARD.encode(data).into_bytes()
}

} // verus!
