//! Encodings and digests computed by outside crates and by std.
use vstd::prelude::*;
use vstd::utf8::{decode_utf8, valid_utf8};

use base64::Engine;

verus! {

/// The UTF-8 text of `bytes`, when they are valid UTF-8.
/// Trusted: `std::str::from_utf8`, which succeeds exactly on valid UTF-8 and
/// then borrows the same bytes as a string slice.
#[verifier::external_body]
pub(crate) fn utf8_str(bytes: &[u8]) -> (r: Option<&str>)
    ensures
        r is Some <==> valid_utf8(bytes@),
        r matches Some(s) ==> s@ == decode_utf8(bytes@),
{
    std::str::from_utf8(bytes).ok()
}

/// The standard base64 encoding (RFC 4648 alphabet, with padding) of `bytes`.
pub uninterp spec fn base64_standard(bytes: Seq<u8>) -> Seq<char>;

/// The bytes that a standard base64 text decodes to, or the display text of
/// the decode error when it is not valid standard base64.
pub uninterp spec fn base64_standard_decoded(text: Seq<char>) -> Result<Seq<u8>, Seq<char>>;

/// `text` decodes, as standard base64, to exactly `bytes`.
pub open spec fn base64_decodes_to(text: Seq<char>, bytes: Seq<u8>) -> bool {
    base64_standard_decoded(text) matches Ok(b) && b == bytes
}

/// Trusted: `base64::engine::general_purpose::STANDARD.encode`. The result is
/// named `base64_standard`; decoding it with the same engine gives back the
/// input. The encoder panics only when the output length overflows `usize`,
/// which the bound on the input excludes.
#[verifier::external_body]
pub(crate) fn base64_encode(bytes: &[u8]) -> (r: String)
    requires
        bytes@.len() <= isize::MAX,
    ensures
        r@ == base64_standard(bytes@),
        base64_decodes_to(r@, bytes@),
{
    base64::engine::general_purpose::STANDARD.encode(bytes)
}

/// Trusted: `base64::engine::general_purpose::STANDARD.decode`, with the
/// error's display text on failure. The outcome is named
/// `base64_standard_decoded`.
#[verifier::external_body]
pub(crate) fn base64_decode(text: &str) -> (r: Result<Vec<u8>, String>)
    ensures
        match r {
            Ok(v) => (base64_standard_decoded(text@) matches Ok(d) && d == v@),
            Err(e) => (base64_standard_decoded(text@) matches Err(m) && m == e@),
        },
{
    match base64::engine::general_purpose::STANDARD.decode(text) {
        Ok(v) => Ok(v),
        Err(e) => Err(e.to_string()),
    }
}

/// The JSON text re-indented by serde_json's pretty printer, or `None` when
/// the text does not parse as JSON.
pub uninterp spec fn serde_json_pretty(text: Seq<char>) -> Option<Seq<char>>;

/// Trusted: `serde_json::from_str::<serde_json::Value>` followed by
/// `serde_json::to_string_pretty` of the parsed value. The result is named
/// `serde_json_pretty`.
#[verifier::external_body]
pub(crate) fn json_pretty(text: &str) -> (r: Option<String>)
    ensures
        r.deep_view() == serde_json_pretty(text@),
{
    match serde_json::from_str::<serde_json::Value>(text) {
        Ok(value) => serde_json::to_string_pretty(&value).ok(),
        Err(_) => None,
    }
}

/// The SHA-256 digest of `data`.
pub uninterp spec fn sha256_digest(data: Seq<u8>) -> Seq<u8>;

/// The SHA-1 digest of `data`.
pub uninterp spec fn sha1_digest(data: Seq<u8>) -> Seq<u8>;

/// Trusted: `ring::digest::digest(&ring::digest::SHA256, data)`, taken as
/// bytes. The result is named `sha256_digest` and is 32 bytes long. ring
/// panics when the input's bit length overflows 64 bits, which the bound
/// excludes.
#[verifier::external_body]
pub(crate) fn sha256(data: &[u8]) -> (r: Vec<u8>)
    requires
        data@.len() < 0x2000_0000_0000_0000,
    ensures
        r@ == sha256_digest(data@),
        r@.len() == 32,
{
    ring::digest::digest(&ring::digest::SHA256, data).as_ref().to_vec()
}

/// Trusted: `ring::digest::digest(&ring::digest::SHA1_FOR_LEGACY_USE_ONLY,
/// data)`, taken as bytes. The result is named `sha1_digest` and is 20 bytes
/// long. ring panics when the input's bit length overflows 64 bits, which
/// the bound excludes.
#[verifier::external_body]
pub(crate) fn sha1(data: &[u8]) -> (r: Vec<u8>)
    requires
        data@.len() < 0x2000_0000_0000_0000,
    ensures
        r@ == sha1_digest(data@),
        r@.len() == 20,
{
    ring::digest::digest(&ring::digest::SHA1_FOR_LEGACY_USE_ONLY, data).as_ref().to_vec()
}

/// The JSON array text of a list of strings, as `serde_json::to_string`
/// writes it.
pub uninterp spec fn json_string_list(items: Seq<Seq<char>>) -> Seq<char>;

/// The list of strings that a JSON text holds, or `None` when it does not
/// parse as an array of strings.
pub uninterp spec fn json_string_list_parsed(text: Seq<char>) -> Option<Seq<Seq<char>>>;

/// Trusted: `serde_json::to_string` of a `Vec<String>`, which cannot fail for
/// such a value. The result is named `json_string_list`; parsing it back
/// gives the same strings.
#[verifier::external_body]
pub(crate) fn string_list_json(items: &Vec<String>) -> (r: String)
    ensures
        r@ == json_string_list(items.deep_view()),
        json_string_list_parsed(r@) == Some(items.deep_view()),
{
    serde_json::to_string(items).unwrap_or_default()
}

/// Trusted: `serde_json::from_str::<Vec<String>>`. The result is named
/// `json_string_list_parsed`.
#[verifier::external_body]
pub(crate) fn parse_string_list(text: &str) -> (r: Option<Vec<String>>)
    ensures
        r.deep_view() == json_string_list_parsed(text@),
{
    serde_json::from_str::<Vec<String>>(text).ok()
}

} // verus!
