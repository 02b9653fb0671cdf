//! Base64 framing of payloads.
//!
//! Every engine stores its record as base64 text so that the record holds only
//! printable ASCII, whatever the payload's bytes. The encoding itself is done
//! by the `base64` crate behind the two trusted helpers below; everything the
//! rest of the library proves about records rests on their contracts.

use vstd::prelude::*;

verus! {

/// Greatest payload length the base64 helpers accept: beyond it the encoded
/// length `4 * ((n + 2) / 3)` no longer fits in `usize`, and `encode` inside
/// the `base64` crate would abort while sizing its output buffer.
pub const MAX_ENCODABLE_LEN: usize = (usize::MAX / 4) * 3;

/// The bytes base64 standard encoding emits: `A`-`Z`, `a`-`z`, `0`-`9`, `+`,
/// `/`, and the padding byte `=`.
pub open spec fn is_base64_byte(b: u8) -> bool {
    ||| 0x41 <= b <= 0x5a
    ||| 0x61 <= b <= 0x7a
    ||| 0x30 <= b <= 0x39
    ||| b == 0x2b
    ||| b == 0x2f
    ||| b == 0x3d
}

/// What the `base64` crate's standard engine encodes a byte sequence to.
pub uninterp spec fn b64_encoding(payload: Seq<u8>) -> Seq<u8>;

/// What the `base64` crate's standard engine decodes a byte sequence to
/// (`None`: the text is rejected).
pub uninterp spec fn b64_decoding(text: Seq<u8>) -> Option<Seq<u8>>;

/// Relies on `base64::engine::general_purpose::STANDARD.encode`: it emits
/// `4 * ceil(n / 3)` bytes of the RFC 4648 standard alphabet with `=` padding,
/// and the crate documents decoding as its inverse (`decode(&encode(data))`
/// returns `data`). `encode` aborts only when that output length overflows
/// `usize`, which the precondition rules out.
#[verifier::external_body]
pub(crate) fn b64_encode(payload: &[u8]) -> (r: Vec<u8>)
    requires
        payload@.len() <= MAX_ENCODABLE_LEN,
    ensures
        r@ == b64_encoding(payload@),
        r@.len() == 4 * ((payload@.len() + 2) / 3),
        forall|i: int| 0 <= i < r@.len() ==> is_base64_byte(#[trigger] r@[i]),
        b64_decoding(r@) == Some(payload@),
{
    base64::Engine::encode(&base64::engine::general_purpose::STANDARD, payload).into_bytes()
}

/// Relies on `base64::engine::general_purpose::STANDARD.decode`: a pure
/// function of the input text that never panics, returning `Err` exactly on
/// text the engine rejects.
#[verifier::external_body]
pub(crate) fn b64_decode(text: &[u8]) -> (r: Option<Vec<u8>>)
    ensures
        r matches Some(v) ==> b64_decoding(text@) == Some(v@),
        r is None ==> b64_decoding(text@) is None,
{
    base64::Engine::decode(&base64::engine::general_purpose::STANDARD, text).ok()
}

} // verus!
