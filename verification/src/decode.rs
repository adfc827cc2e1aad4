//! Texts from bytes, and the shown form of texts.

use vstd::prelude::*;

verus! {

/// The text that `String::from_utf8_lossy` reads out of bytes.
pub uninterp spec fn lossy_text(bytes: Seq<u8>) -> Seq<char>;

/// `String::from_utf8_lossy`: reads bytes as UTF-8. Bytes that are valid UTF-8
/// are read as they stand; what stands in place of other ones is left to the
/// name `lossy_text`.
#[verifier::external_body]
pub(crate) fn decode_lossy(bytes: &[u8]) -> (text: String)
    ensures
        text@ == lossy_text(bytes@),
        vstd::utf8::valid_utf8(bytes@) ==> text@ == vstd::utf8::decode_utf8(bytes@),
{
    String::from_utf8_lossy(bytes).into_owned()
}

/// `std::str::from_utf8`: reads bytes that are valid UTF-8, and no others.
#[verifier::external_body]
pub(crate) fn decode_strict(bytes: &[u8]) -> (text: Option<String>)
    ensures
        text is Some <==> vstd::utf8::valid_utf8(bytes@),
        text matches Some(read) ==> read@ == vstd::utf8::decode_utf8(bytes@),
{
    std::str::from_utf8(bytes).ok().map(|text| text.to_owned())
}

/// The text between quotes that the `Debug` form of a text shows.
pub uninterp spec fn quoted_text(text: Seq<char>) -> Seq<char>;

/// The `Debug` form of `str`: the text between quotes, with what would be
/// mistaken escaped. It is a function of the text alone; which one is left to
/// the name `quoted_text`.
#[verifier::external_body]
pub(crate) fn quote(text: &str) -> (quoted: String)
    ensures
        quoted@ == quoted_text(text@),
{
    format!("{text:?}")
}

} // verus!
