//! Lossy decoding of UTF-8, as the standard library does it. This is the
//! one place where the library relies on code that it does not verify.

use vstd::prelude::*;
use vstd::utf8::*;

verus! {

/// The text that `String::from_utf8_lossy` makes of `bytes`: the characters
/// that the bytes encode, with U+FFFD REPLACEMENT CHARACTER in place of
/// each stretch that is not valid UTF-8. Which stretches those are is the
/// standard library's rule, and is not spelled out here.
pub uninterp spec fn lossy_text(bytes: Seq<u8>) -> Seq<char>;

/// Calls `String::from_utf8_lossy` and takes the result as a `String`.
///
/// Trusted, not proved: the text depends on the bytes alone, and bytes that
/// are valid UTF-8 come out as the characters they encode. The call cannot
/// fail.
#[verifier::external_body]
pub(crate) fn decode_lossy(bytes: &[u8]) -> (text: String)
    ensures
        text@ == lossy_text(bytes@),
        valid_utf8(bytes@) ==> text@ == decode_utf8(bytes@),
{
    String::from_utf8_lossy(bytes).into_owned()
}

} // verus!
