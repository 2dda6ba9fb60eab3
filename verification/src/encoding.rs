//! From bytes to text.

use vstd::prelude::*;
use vstd::utf8::{decode_utf8, encode_utf8, encode_utf8_decode_utf8, encode_utf8_valid_utf8, valid_utf8};

verus! {

/// The text that `String::from_utf8_lossy` makes of `bytes`.
pub uninterp spec fn lossy_text(bytes: Seq<u8>) -> Seq<char>;

/// The text that `bytes` are shown as: what they encode where they are valid UTF-8,
/// and what `String::from_utf8_lossy` makes of them otherwise.
pub open spec fn shown_text(bytes: Seq<u8>) -> Seq<char> {
    if valid_utf8(bytes) {
        decode_utf8(bytes)
    } else {
        lossy_text(bytes)
    }
}

/// Text that is encoded is shown as it was.
pub proof fn law_encoded_text_is_shown(text: Seq<char>)
    ensures
        shown_text(encode_utf8(text)) == text,
{
    encode_utf8_decode_utf8(text);
    encode_utf8_valid_utf8(text);
}

/// Bytes that are not UTF-8 are shown as `String::from_utf8_lossy` makes of them.
pub proof fn law_other_bytes_are_shown_lossily(bytes: Seq<u8>)
    requires
        !valid_utf8(bytes),
    ensures
        shown_text(bytes) == lossy_text(bytes),
{
}

/// `std::str::from_utf8`: the text that the bytes encode, exactly where they are
/// valid UTF-8.
#[verifier::external_body]
pub(crate) fn utf8_text(bytes: &[u8]) -> (res: Option<&str>)
    ensures
        res is Some <==> valid_utf8(bytes@),
        res matches Some(text) ==> text@ == decode_utf8(bytes@),
{
    std::str::from_utf8(bytes).ok()
}

/// `String::from_utf8_lossy`: the text that the bytes encode where they are valid
/// UTF-8. Otherwise invalid parts become replacement characters; of that case it is
/// only said that the text is a function of the bytes.
#[verifier::external_body]
pub(crate) fn utf8_text_lossy(bytes: &[u8]) -> (res: String)
    ensures
        res@ == lossy_text(bytes@),
        valid_utf8(bytes@) ==> res@ == decode_utf8(bytes@),
{
    String::from_utf8_lossy(bytes).into_owned()
}

} // verus!
