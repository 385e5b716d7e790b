//! Bytes that came from the device, read as text.

use vstd::prelude::*;

verus! {

/// The text that `String::from_utf8_lossy` reads out of bytes: the string that
/// they encode in UTF-8, with the replacement character in place of each
/// stretch that encodes none.
pub uninterp spec fn lossy_text(bytes: Seq<u8>) -> Seq<char>;

/// `String::from_utf8_lossy`, with its result made an owned string. The
/// result depends on the bytes alone.
#[verifier::external_body]
pub(crate) fn decode_text(bytes: &[u8]) -> (text: String)
    ensures
        text@ == lossy_text(bytes@),
{
    String::from_utf8_lossy(bytes).into_owned()
}

} // verus!
