use vstd::prelude::*;
use vstd::utf8::*;
use crate::encoding::{base64_decode, base64_decoded, base64_encode, base64_len, base64_text, utf8_string, Base64Engine};
use crate::error::TextError;
use crate::format::Base64Format;

verus! {

broadcast use vstd::utf8::group_utf8_lib;

/// The base64 configuration of a flavour: standard with padding, or URL-safe without.
pub open spec fn engine_of(f: Base64Format) -> Base64Engine {
    match f {
        Base64Format::Standard => Base64Engine::Standard,
        Base64Format::UrlSafe => Base64Engine::UrlSafeNoPad,
    }
}

fn engine_for(f: Base64Format) -> (r: Base64Engine)
    ensures
        r == engine_of(f),
{
    match f {
        Base64Format::Standard => Base64Engine::Standard,
        Base64Format::UrlSafe => Base64Engine::UrlSafeNoPad,
    }
}

/// What decoding a base64 text to text gives: an encoding error for bad
/// base64 or for bytes that are not UTF-8, else the text the bytes encode.
pub open spec fn decoded_text(format: Base64Format, text: Seq<char>) -> Result<Seq<char>, TextError> {
    let e = engine_of(format);
    match base64_decoded(text, e.url(), e.pad()) {
        None => Err(TextError::Encoding),
        Some(b) => if valid_utf8(b) {
            Ok(decode_utf8(b))
        } else {
            Err(TextError::Encoding)
        },
    }
}

/// Encodes the UTF-8 bytes of a text as base64.
///
/// Decoding the result under the same flavour gives the text back.
pub fn process_encode(input: &str, format: Base64Format) -> (r: Result<String, TextError>)
    requires
        base64_len(encode_utf8(input@).len() as int, engine_of(format).pad()) <= usize::MAX,
    ensures
        r matches Ok(s) && s@ == base64_text(
            encode_utf8(input@),
            engine_of(format).url(),
            engine_of(format).pad(),
        ),
        r matches Ok(s) ==> decoded_text(format, s@) == Ok::<Seq<char>, TextError>(input@),
{
    let engine = engine_for(format);
    Ok(base64_encode(input.as_bytes(), engine))
}

/// Decodes base64 text into the text its bytes encode.
pub fn process_decode(input: &str, format: Base64Format) -> (r: Result<String, TextError>)
    ensures
        match r {
            Ok(s) => decoded_text(format, input@) == Ok::<Seq<char>, TextError>(s@),
            Err(e) => decoded_text(format, input@) == Err::<Seq<char>, TextError>(e),
        },
{
    let engine = engine_for(format);
    match base64_decode(input, engine) {
        Some(b) => match utf8_string(b) {
            Some(s) => Ok(s),
            None => Err(TextError::Encoding),
        },
        None => Err(TextError::Encoding),
    }
}

} // verus!
