//! Digests and encodings of bytes.
use vstd::prelude::*;

verus! {

/// The SHA-256 digest of bytes, in hexadecimal digits.
pub uninterp spec fn sha256_text(bytes: Seq<u8>) -> Seq<char>;

/// Bytes in Base64, with the standard alphabet and padding.
pub uninterp spec fn base64_text(bytes: Seq<u8>) -> Seq<char>;

/// Bytes in Base64, with the alphabet for URLs and without padding.
pub uninterp spec fn base64_url_text(bytes: Seq<u8>) -> Seq<char>;

/// A lower-case hexadecimal digit.
pub open spec fn is_hex(c: char) -> bool {
    ('0' <= c && c <= '9') || ('a' <= c && c <= 'f')
}

/// Lower-case hexadecimal digits only.
pub open spec fn all_hex(s: Seq<char>) -> bool {
    forall|i: int| 0 <= i < s.len() ==> is_hex(#[trigger] s[i])
}

/// `sha2::Sha256::digest`, written in lower-case hexadecimal digits: a text of 64 such digits that
/// depends on the bytes alone.
#[verifier::external_body]
pub(crate) fn sha256_hex(bytes: &[u8]) -> (r: String)
    ensures
        r@ == sha256_text(bytes@),
        r@.len() == 64,
        all_hex(r@),
{
    format!("{:x}", <sha2::Sha256 as sha2::Digest>::digest(bytes))
}

/// `base64::Engine::encode` of the engine `STANDARD`: a text that depends on the bytes alone.
#[verifier::external_body]
pub(crate) fn base64_standard(bytes: &[u8]) -> (r: String)
    ensures
        r@ == base64_text(bytes@),
{
    base64::Engine::encode(&base64::engine::general_purpose::STANDARD, bytes)
}

/// `base64::Engine::encode` of the engine `URL_SAFE_NO_PAD`: a text that depends on the bytes
/// alone.
#[verifier::external_body]
pub(crate) fn base64_url(bytes: &[u8]) -> (r: String)
    ensures
        r@ == base64_url_text(bytes@),
{
    base64::Engine::encode(&base64::engine::general_purpose::URL_SAFE_NO_PAD, bytes)
}

/// The digest of a text, taken over its UTF-8 bytes.
pub open spec fn text_digest(text: Seq<char>) -> Seq<char> {
    sha256_text(vstd::utf8::encode_utf8(text))
}

/// The digest of a text.
pub fn digest_text(text: &str) -> (r: String)
    ensures
        r@ == text_digest(text@),
        r@.len() == 64,
        all_hex(r@),
{
    sha256_hex(text.as_bytes())
}

} // verus!
