//! Trusted bindings for content digests and base64 transport encoding.
//!
//! Each digest is named by an uninterpreted function of the input alone;
//! nothing else is assumed of the outside implementations beyond the
//! documented output length.

use vstd::prelude::*;

use base64::Engine;
use md5::Digest;

verus! {

/// The hex rendering of the blake3 digest of a character sequence.
pub uninterp spec fn blake3_hex_of(s: Seq<char>) -> Seq<char>;

/// Relies on blake3::hash and blake3::Hash::to_hex: a 64-character hex
/// digest determined by the input bytes alone.
#[verifier::external_body]
pub(crate) fn blake3_hex(s: &str) -> (r: String)
    ensures
        r@ == blake3_hex_of(s@),
        r@.len() == 64,
{
    blake3::hash(s.as_bytes()).to_hex().as_str().to_owned()
}

/// The hex rendering of the SHA-256 digest of a character sequence.
pub uninterp spec fn sha256_hex_of(s: Seq<char>) -> Seq<char>;

/// Relies on sha2::Sha256 (Digest::digest) and hex::encode: a 64-character
/// hex digest determined by the input bytes alone.
#[verifier::external_body]
pub(crate) fn sha256_hex(s: &str) -> (r: String)
    ensures
        r@ == sha256_hex_of(s@),
        r@.len() == 64,
{
    hex::encode(sha2::Sha256::digest(s.as_bytes()))
}

/// The hex rendering of the MD5 digest of a character sequence.
pub uninterp spec fn md5_hex_of(s: Seq<char>) -> Seq<char>;

/// Relies on md5::Md5 (Digest::digest) and hex::encode: a 32-character hex
/// digest determined by the input bytes alone.
#[verifier::external_body]
pub(crate) fn md5_hex(s: &str) -> (r: String)
    ensures
        r@ == md5_hex_of(s@),
        r@.len() == 32,
{
    hex::encode(md5::Md5::digest(s.as_bytes()))
}

/// The standard base64 rendering of a byte sequence.
pub uninterp spec fn base64_of(bytes: Seq<u8>) -> Seq<char>;

/// Relies on base64's STANDARD engine encode: the base64 text is determined
/// by the input bytes alone.
#[verifier::external_body]
pub(crate) fn b64_encode(bytes: &[u8]) -> (r: String)
    ensures
        r@ == base64_of(bytes@),
{
    base64::engine::general_purpose::STANDARD.encode(bytes)
}

/// The bytes a base64 text decodes to, or nothing when it is not valid
/// base64.
pub uninterp spec fn base64_decoded(s: Seq<char>) -> Option<Seq<u8>>;

/// Relies on base64's STANDARD engine decode: decoding fails exactly on
/// input that is not valid base64, and its result is determined by the
/// input alone.
#[verifier::external_body]
pub(crate) fn b64_decode(s: &str) -> (r: Option<Vec<u8>>)
    ensures
        match r {
            Option::Some(v) => base64_decoded(s@) == Option::Some(v@),
            Option::None => base64_decoded(s@) is None,
        },
{
    match base64::engine::general_purpose::STANDARD.decode(s) {
        Ok(v) => Option::Some(v),
        Err(_) => Option::None,
    }
}

/// The text a byte sequence renders as when decoded as UTF-8 with
/// replacement characters for invalid bytes.
pub uninterp spec fn utf8_lossy_of(bytes: Seq<u8>) -> Seq<char>;

/// Relies on String::from_utf8_lossy: the rendering is determined by the
/// bytes alone.
#[verifier::external_body]
pub(crate) fn bytes_to_string_lossy(bytes: &[u8]) -> (r: String)
    ensures
        r@ == utf8_lossy_of(bytes@),
{
    String::from_utf8_lossy(bytes).into_owned()
}

} // verus!
