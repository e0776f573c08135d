//! Base64 and UTF-8, as the session's payloads need them.

use base64::engine::general_purpose::STANDARD;
use base64::Engine;
use vstd::prelude::*;
use vstd::string::*;
use vstd::utf8::{decode_utf8, valid_utf8};

verus! {

/// What the standard padded Base64 alphabet makes of the UTF-8 bytes of `text`.
pub uninterp spec fn base64_encoded(text: Seq<char>) -> Seq<char>;

/// The bytes that `text` stands for in standard padded Base64, or `None` where `text`
/// is no such encoding.
pub uninterp spec fn base64_decoded(text: Seq<char>) -> Option<Seq<u8>>;

/// Whether the Base64 encoding of a text of `len` bytes has a length that fits `usize`.
pub open spec fn base64_fits(len: nat) -> bool {
    (len / 3 + 1) * 4 <= usize::MAX
}

/// `Engine::encode` of the `base64` crate on its `STANDARD` engine. The result is a
/// function of the input alone, which `base64_encoded` names. The crate panics where
/// the length of the encoding overflows `usize`; such inputs are left out.
#[verifier::external_body]
fn base64_encode(text: &str) -> (encoded: String)
    requires
        base64_fits(text.spec_bytes().len()),
    ensures
        encoded@ == base64_encoded(text@),
{
    STANDARD.encode(text)
}

/// `Engine::decode` of the `base64` crate on its `STANDARD` engine, with the error
/// dropped. The result is a function of the input alone, which `base64_decoded` names.
#[verifier::external_body]
fn base64_decode(text: &str) -> (decoded: Option<Vec<u8>>)
    ensures
        match decoded {
            Some(bytes) => base64_decoded(text@) == Some(bytes@),
            None => base64_decoded(text@) is None,
        },
{
    STANDARD.decode(text).ok()
}

/// `String::from_utf8` of the standard library, with the error dropped: the text that
/// the bytes encode, where they are valid UTF-8, and nothing where they are not.
#[verifier::external_body]
fn string_from_utf8(bytes: Vec<u8>) -> (text: Option<String>)
    ensures
        match text {
            Some(s) => valid_utf8(bytes@) && s@ == decode_utf8(bytes@),
            None => !valid_utf8(bytes@),
        },
{
    String::from_utf8(bytes).ok()
}

/// The text that decoded bytes stand for: nothing where the decoding failed or the
/// bytes are not valid UTF-8.
pub open spec fn payload_text_of(decoded: Option<Seq<u8>>) -> Option<Seq<char>> {
    match decoded {
        Some(bytes) => if valid_utf8(bytes) {
            Some(decode_utf8(bytes))
        } else {
            None
        },
        None => None,
    }
}

/// The text of a decoded payload.
pub fn payload_text(decoded: Option<Vec<u8>>) -> (text: Option<String>)
    ensures
        match text {
            Some(s) => payload_text_of(
                match decoded {
                    Some(bytes) => Some(bytes@),
                    None => None,
                },
            ) == Some(s@),
            None => payload_text_of(
                match decoded {
                    Some(bytes) => Some(bytes@),
                    None => None,
                },
            ) is None,
        },
{
    match decoded {
        Some(bytes) => string_from_utf8(bytes),
        None => None,
    }
}

/// The text inside a Base64 payload: nothing where the payload is not Base64 or what
/// it holds is not UTF-8.
pub fn decode_payload(payload: &str) -> (text: Option<String>)
    ensures
        match text {
            Some(s) => payload_text_of(base64_decoded(payload@)) == Some(s@),
            None => payload_text_of(base64_decoded(payload@)) is None,
        },
{
    payload_text(base64_decode(payload))
}

/// The value of a basic authorization header for the user `riot` with `password`.
pub open spec fn basic_auth_of(password: Seq<char>) -> Seq<char> {
    "Basic "@ + base64_encoded("riot:"@ + password)
}

/// The header value around an encoded credential.
pub open spec fn basic_header_of(encoded: Seq<char>) -> Seq<char> {
    "Basic "@ + encoded
}

/// The header value around an encoded credential.
pub fn basic_header(encoded: &str) -> (header: String)
    ensures
        header@ == basic_header_of(encoded@),
{
    let mut header = String::from_str("Basic ");
    header.append(encoded);
    header
}

/// The longest password that `basic_auth` takes, in characters.
pub const MAX_PASSWORD_CHARS: usize = 0x0fff_ffff;

/// The value of the basic authorization header for the user `riot` with `password`.
pub fn basic_auth(password: &str) -> (header: String)
    requires
        password@.len() <= MAX_PASSWORD_CHARS,
    ensures
        header@ == basic_auth_of(password@),
{
    let mut credential = String::from_str("riot:");
    credential.append(password);
    proof {
        reveal_strlit("riot:");
        lemma_utf8_len(credential@);
    }
    let encoded = base64_encode(credential.as_str());
    basic_header(encoded.as_str())
}

/// The UTF-8 encoding of a text has at most four bytes for each character.
pub proof fn lemma_utf8_len(chars: Seq<char>)
    ensures
        vstd::utf8::encode_utf8(chars).len() <= 4 * chars.len(),
    decreases chars.len(),
{
    if chars.len() > 0 {
        lemma_utf8_len(chars.drop_first());
    }
}

} // verus!
