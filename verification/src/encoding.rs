//! Base64 and UTF-8: the encodings that job arguments, job output and
//! configuration files travel in.
use vstd::prelude::*;

verus! {

#[verifier::external_type_specification]
#[verifier::external_body]
pub struct ExDecodeError(base64::DecodeError);

#[verifier::external_type_specification]
#[verifier::external_body]
pub struct ExFromUtf8Error(std::string::FromUtf8Error);

/// The bytes that standard Base64 text, with padding, decodes to, as
/// `base64::decode` gives them; `None` where it refuses the text.
pub uninterp spec fn base64_decoded(text: Seq<char>) -> Option<Seq<u8>>;

/// `base64::decode`: the bytes the text's standard Base64 stands for, or
/// the decoder's error; named `base64_decoded`. The decoder's own length
/// checks can only fail for inputs longer than any string can be.
#[verifier::external_body]
pub(crate) fn decode_base64(text: &str) -> (r: Result<Vec<u8>, base64::DecodeError>)
    ensures
        match r {
            Ok(v) => base64_decoded(text@) == Some(v@),
            Err(_) => base64_decoded(text@) is None,
        },
{
    base64::decode(text)
}

/// `String::from_utf8`: the text the bytes encode where they are valid
/// UTF-8, and an error otherwise.
#[verifier::external_body]
pub(crate) fn string_from_utf8(bytes: Vec<u8>) -> (r: Result<String, std::string::FromUtf8Error>)
    ensures
        match r {
            Ok(s) => vstd::utf8::valid_utf8(bytes@) && s@ == vstd::utf8::decode_utf8(bytes@),
            Err(_) => !vstd::utf8::valid_utf8(bytes@),
        },
{
    String::from_utf8(bytes)
}

/// The standard Base64 text, with padding, of the text's UTF-8 bytes, as
/// `base64::encode` gives it.
pub uninterp spec fn base64_encoded(text: Seq<char>) -> Seq<char>;

/// `base64::encode`: the standard Base64 text of the text's bytes, named
/// `base64_encoded`. The encoder panics where the encoded length, four
/// bytes for each three, cannot be allocated; with at most four bytes to a
/// character, the bound on the length keeps it within `isize::MAX`.
#[verifier::external_body]
pub(crate) fn encode_base64(text: &str) -> (r: String)
    requires
        text@.len() * 6 + 4 <= isize::MAX,
    ensures
        r@ == base64_encoded(text@),
{
    base64::encode(text)
}


/// The text that `String::from_utf8_lossy` makes of bytes: their UTF-8
/// text, with a replacement character for each invalid sequence.
pub uninterp spec fn utf8_lossy(bytes: Seq<u8>) -> Seq<char>;

/// `String::from_utf8_lossy`, made an owned string: the bytes' text, named
/// `utf8_lossy`; on valid UTF-8 it is the text the bytes encode. How
/// invalid sequences are replaced is not stated.
#[verifier::external_body]
pub(crate) fn string_from_utf8_lossy(bytes: &[u8]) -> (r: String)
    ensures
        r@ == utf8_lossy(bytes@),
        vstd::utf8::valid_utf8(bytes@) ==> r@ == vstd::utf8::decode_utf8(bytes@),
{
    String::from_utf8_lossy(bytes).to_string()
}

} // verus!
