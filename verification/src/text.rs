//! Turning the bytes that a command wrote into text.

use vstd::prelude::*;
use vstd::utf8::*;

verus! {

/// The text that lossy UTF-8 decoding makes of `bytes`: every well-formed
/// sequence decoded, every ill-formed one replaced by U+FFFD.
pub uninterp spec fn lossy_text(bytes: Seq<u8>) -> Seq<char>;

/// Trusted: calls `String::from_utf8_lossy` of the standard library and takes
/// ownership of what it returns. The contract names the decoded text
/// `lossy_text` of the bytes, and claims that well-formed UTF-8 is decoded as
/// it stands, with nothing replaced.
#[verifier::external_body]
pub(crate) fn decode_lossy(bytes: &[u8]) -> (text: String)
    ensures
        text@ == lossy_text(bytes@),
        valid_utf8(bytes@) ==> text@ == decode_utf8(bytes@),
{
    String::from_utf8_lossy(bytes).into_owned()
}

} // verus!
