//! Reversible, filesystem-safe names for subscription and read-marker files.
use vstd::prelude::*;
use vstd::utf8::{decode_utf8, encode_utf8, valid_utf8};
use vstd::string::StringSliceAdditionalSpecFns;
use base64::Engine;

verus! {

broadcast use {
    vstd::utf8::encode_utf8_decode_utf8,
    vstd::utf8::decode_utf8_encode_utf8,
    vstd::utf8::encode_utf8_valid_utf8,
};

/// Text produced by the URL-safe, padded base64 engine for the given bytes.
pub uninterp spec fn base64_text(bytes: Seq<u8>) -> Seq<char>;

#[verifier::external_type_specification]
#[verifier::external_body]
pub struct ExFromUtf8Error(std::string::FromUtf8Error);

/// Relies on `Engine::encode` of base64's `URL_SAFE` engine (padded): the text
/// depends on the bytes alone.
#[verifier::external_body]
fn base64_encode(bytes: &[u8]) -> (r: String)
    ensures
        r@ == base64_text(bytes@),
{
    base64::engine::general_purpose::URL_SAFE.encode(bytes)
}

/// Relies on `Engine::decode` of base64's `URL_SAFE` engine, which requires
/// canonical padding and zero trailing bits: it gives back the bytes of every
/// text that `encode` produced, and accepts only such texts.
#[verifier::external_body]
fn base64_decode(text: &str) -> (r: Option<Vec<u8>>)
    ensures
        r is None ==> forall|b: Seq<u8>| base64_text(b) != text@,
        r matches Some(v) ==> base64_text(v@) == text@ && forall|b: Seq<u8>|
            base64_text(b) == text@ ==> b == v@,
{
    base64::engine::general_purpose::URL_SAFE.decode(text).ok()
}

/// Relies on `String::from_utf8`: it succeeds exactly on valid UTF-8 and then
/// holds the text those bytes encode.
#[verifier::external_body]
pub(crate) fn string_from_utf8(bytes: Vec<u8>) -> (r: Result<String, std::string::FromUtf8Error>)
    ensures
        r is Ok <==> valid_utf8(bytes@),
        r matches Ok(s) ==> s@ == decode_utf8(bytes@),
{
    String::from_utf8(bytes)
}

/// Why a file name could not be read back as text.
#[derive(Debug, Clone, Copy, PartialEq, Eq, Structural)]
pub enum DecodeError {
    /// The name is not a canonical base64 text.
    NotBase64,
    /// The decoded bytes are not UTF-8.
    NotUtf8,
}

/// The file name under which the text `s` is stored.
pub open spec fn name_of(s: Seq<char>) -> Seq<char> {
    base64_text(encode_utf8(s))
}

/// Encodes arbitrary text as a file name.
pub fn encode(s: &str) -> (r: String)
    ensures
        r@ == name_of(s@),
{
    base64_encode(s.as_bytes())
}

/// Decodes a file name produced by [`encode`] back to its text.
pub fn decode(name: &str) -> (r: Result<String, DecodeError>)
    ensures
        r matches Ok(s) ==> name_of(s@) == name@,
        forall|t: Seq<char>| name_of(t) == name@ ==> (r matches Ok(s) && s@ == t),
        r == Err::<String, DecodeError>(DecodeError::NotBase64) <==> !exists|b: Seq<u8>|
            base64_text(b) == name@,
        r == Err::<String, DecodeError>(DecodeError::NotUtf8) <==> exists|b: Seq<u8>|
            base64_text(b) == name@ && !valid_utf8(b),
{
    match base64_decode(name) {
        None => Err(DecodeError::NotBase64),
        Some(bytes) => {
            let ghost b = bytes@;
            match string_from_utf8(bytes) {
                Ok(s) => Ok(s),
                Err(_) => {
                    assert(base64_text(b) == name@ && !valid_utf8(b));
                    Err(DecodeError::NotUtf8)
                },
            }
        },
    }
}

} // verus!
