//! Reading recovered bytes as text.

use vstd::prelude::*;

verus! {

/// The characters that lossy UTF-8 decoding makes of a byte sequence:
/// valid sequences decode to their characters, and each invalid one is
/// replaced by U+FFFD.
pub uninterp spec fn utf8_lossy(bytes: Seq<u8>) -> Seq<char>;

/// Calls `String::from_utf8_lossy` and takes ownership of what it
/// returns. The decoding depends on the bytes alone; the contract names
/// its outcome and claims nothing more of it.
#[verifier::external_body]
pub(crate) fn decode_lossy(bytes: &[u8]) -> (text: String)
    ensures
        text@ == utf8_lossy(bytes@),
{
    String::from_utf8_lossy(bytes).into_owned()
}

/// Reads bytes as text; invalid UTF-8 is replaced, never refused.
pub fn lossy_text(bytes: &[u8]) -> (text: String)
    ensures
        text@ == utf8_lossy(bytes@),
{
    decode_lossy(bytes)
}

} // verus!
