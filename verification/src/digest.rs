//! Digests, identifiers and dates that outside crates compute.

use crate::numbers::{hex, hex_prefix};
use crate::text::joined;
use base64::Engine;
use sha2::Digest;
use std::hash::Hasher;
use vstd::prelude::*;
use vstd::string::*;

verus! {

/// The SHA-256 digest of a message.
pub uninterp spec fn sha256(message: Seq<u8>) -> Seq<u8>;

/// The URL-safe base64 text of some bytes, without padding.
pub uninterp spec fn base64_url(bytes: Seq<u8>) -> Seq<char>;

/// The version 5 UUID of a name in a namespace, hyphenated and in lower case.
pub uninterp spec fn uuid_v5(namespace: u128, name: Seq<u8>) -> Seq<char>;

/// Whether a text is a UUID in one of the forms that the uuid crate reads.
pub uninterp spec fn is_uuid(text: Seq<char>) -> bool;

/// The 64-bit hash that std's unseeded default hasher gives a text.
pub uninterp spec fn default_hash(text: Seq<char>) -> u64;

/// The RFC 3339 text of an instant in UTC, given in seconds since the Unix epoch and
/// nanoseconds within the second, with or without the nanoseconds shown.
pub uninterp spec fn rfc3339(unix_seconds: int, nanos: int, nanos_shown: bool) -> Seq<char>;

/// `sha2::Sha256::digest` gives the 32 bytes of the SHA-256 digest.
#[verifier::external_body]
pub(crate) fn sha256_of(message: &[u8]) -> (digest: Vec<u8>)
    ensures
        digest@ == sha256(message@),
        digest@.len() == 32,
{
    sha2::Sha256::digest(message).to_vec()
}

/// `base64`'s `encode` with `URL_SAFE_NO_PAD` writes the bytes in the URL-safe alphabet,
/// without padding: four characters for three bytes, and one more than the bytes that are
/// left over. The input is bounded so that the length fits.
#[verifier::external_body]
pub(crate) fn base64_url_of(bytes: &[u8]) -> (text: String)
    requires
        bytes@.len() <= 0x1000_0000,
    ensures
        text@ == base64_url(bytes@),
        text@.len() == (bytes@.len() * 4 + 2) / 3,
{
    base64::engine::general_purpose::URL_SAFE_NO_PAD.encode(bytes)
}

/// `uuid::Uuid::new_v5` makes the UUID of a name from its SHA-1 hash in a namespace; its
/// `Display` writes it hyphenated, in lower case.
#[verifier::external_body]
pub(crate) fn uuid_v5_of(namespace: u128, name: &[u8]) -> (text: String)
    ensures
        text@ == uuid_v5(namespace, name@),
{
    uuid::Uuid::new_v5(&uuid::Uuid::from_u128(namespace), name).to_string()
}

/// `uuid::Uuid::parse_str` accepts the forms of a UUID and nothing else.
#[verifier::external_body]
pub(crate) fn uuid_is_valid(text: &str) -> (valid: bool)
    ensures
        valid == is_uuid(text@),
{
    uuid::Uuid::parse_str(text).is_ok()
}

/// `std::collections::hash_map::DefaultHasher::new` starts from fixed keys, so a text has
/// one hash.
#[verifier::external_body]
pub(crate) fn default_hash_of(text: &str) -> (hash: u64)
    ensures
        hash == default_hash(text@),
{
    let mut hasher = std::collections::hash_map::DefaultHasher::new();
    std::hash::Hash::hash(text, &mut hasher);
    hasher.finish()
}

/// Whether an instant is one that chrono can hold.
pub open spec fn in_calendar(unix_seconds: int, nanos: int) -> bool {
    &&& -8_334_601_228_800 <= unix_seconds <= 8_210_266_876_799
    &&& 0 <= nanos < 1_000_000_000
}

/// `chrono::DateTime::from_timestamp` and `to_rfc3339_opts` write an instant of their
/// calendar in UTC, with a `Z`.
#[verifier::external_body]
pub(crate) fn rfc3339_of(unix_seconds: i64, nanos: u32, nanos_shown: bool) -> (text: String)
    requires
        in_calendar(unix_seconds as int, nanos as int),
    ensures
        text@ == rfc3339(unix_seconds as int, nanos as int, nanos_shown),
{
    let form = match nanos_shown {
        true => chrono::SecondsFormat::Nanos,
        false => chrono::SecondsFormat::Secs,
    };
    chrono::DateTime::from_timestamp(unix_seconds, nanos).unwrap().to_rfc3339_opts(form, true)
}

/// A prefix, an underscore and the first sixteen bytes of a text's digest in hexadecimal.
pub open spec fn stable_id_of(prefix: Seq<char>, text: Seq<char>) -> Seq<char> {
    prefix + "_"@ + hex(sha256(vstd::utf8::encode_utf8(text)).take(16))
}

/// The identifier that a prefix and a text give, the same each time.
pub fn stable_id(prefix: &str, text: &str) -> (id: String)
    ensures
        id@ == stable_id_of(prefix@, text@),
{
    let digest = sha256_of(text.as_bytes());
    let suffix = hex_prefix(digest.as_slice(), 16);
    joined(joined(prefix, "_").as_str(), suffix.as_str())
}

/// The URL-safe base64 text of the SHA-256 digest of a text.
pub open spec fn text_digest_of(text: Seq<char>) -> Seq<char> {
    base64_url(sha256(vstd::utf8::encode_utf8(text)))
}

/// The URL-safe base64 text of the SHA-256 digest of `text`.
pub fn text_digest(text: &str) -> (digest: String)
    ensures
        digest@ == text_digest_of(text@),
        digest@.len() == 43,
{
    base64_url_of(sha256_of(text.as_bytes()).as_slice())
}

/// An identifier that a text gives is the prefix, an underscore and the first sixteen bytes of
/// the text's SHA-256 digest in hexadecimal; a digest of a text is the whole of it in URL-safe
/// base64. Both depend on the text alone.
pub proof fn identifiers_come_from_digests(prefix: Seq<char>, text: Seq<char>)
    ensures
        stable_id_of(prefix, text) == prefix + seq!['_'] + hex(
            sha256(vstd::utf8::encode_utf8(text)).take(16),
        ),
        text_digest_of(text) == base64_url(sha256(vstd::utf8::encode_utf8(text))),
{
    reveal_strlit("_");
    assert("_"@ =~= seq!['_']);
}

} // verus!
