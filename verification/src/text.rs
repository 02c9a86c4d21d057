//! The text form of a byte stream.

use vstd::prelude::*;

verus! {

/// The base64 text of `bytes`, in the standard alphabet and with padding.
pub uninterp spec fn base64_text(bytes: Seq<u8>) -> Seq<char>;

/// The number of characters that the base64 text of `length` bytes has: four
/// for every three bytes begun.
pub open spec fn base64_length(length: nat) -> nat {
    4 * ((length + 2) / 3)
}

/// Calls `base64::encode`, which writes the bytes in base64 with the
/// standard alphabet and padding. The text is a function of the bytes alone,
/// and is named [`base64_text`]; nothing more is claimed of it. The call
/// fails where the text would be longer than a buffer can be, so such
/// inputs are left out.
#[verifier::external_body]
pub(crate) fn base64_encode(bytes: &Vec<u8>) -> (text: String)
    requires
        base64_length(bytes@.len()) <= isize::MAX,
    ensures
        text@ == base64_text(bytes@),
{
    base64::encode(bytes)
}

} // verus!
