//! The calls this crate makes into `base64`, `sha2`, `subtle`, `getrandom`,
//! `uuid`, `chrono` and std's text case mapping, each behind a wrapper whose
//! contract states what the crate documents of it.
use vstd::prelude::*;

use base64::Engine;
use sha2::Digest;
use subtle::ConstantTimeEq;

verus! {

/// The unpadded URL-safe base64 text of some bytes, as `base64`'s
/// `URL_SAFE_NO_PAD` engine encodes them.
pub uninterp spec fn base64url_encode(bytes: Seq<u8>) -> Seq<char>;

/// What `base64`'s `URL_SAFE_NO_PAD` engine decodes a text to, if it accepts it.
pub uninterp spec fn base64url_decode(text: Seq<char>) -> Option<Seq<u8>>;

/// The SHA-256 digest of some bytes, as `sha2::Sha256` computes it.
pub uninterp spec fn sha256(bytes: Seq<u8>) -> Seq<u8>;

/// The UUID (as its 128-bit big-endian value) that `uuid::Uuid::parse_str`
/// reads from a text, if it accepts the text.
pub uninterp spec fn uuid_parse(text: Seq<char>) -> Option<u128>;

/// Milliseconds since the epoch of `chrono::DateTime::<Utc>::MIN_UTC`,
/// January 1 of year -262143 (proleptic Gregorian), 00:00:00.000.
pub const CHRONO_MIN_MILLIS: i64 = -8_334_601_228_800_000;

/// Milliseconds since the epoch of the last millisecond of
/// `chrono::DateTime::<Utc>::MAX_UTC`'s day, December 31 of year 262142,
/// 23:59:59.999.
pub const CHRONO_MAX_MILLIS: i64 = 8_210_266_876_799_999;

/// Whether `chrono::DateTime::from_timestamp_millis` accepts a number of
/// milliseconds since the epoch: exactly those whose day lies between
/// chrono's first and last representable dates.
pub open spec fn chrono_accepts_millis(millis: i64) -> bool {
    CHRONO_MIN_MILLIS <= millis <= CHRONO_MAX_MILLIS
}

/// The text std's `str::to_lowercase` makes of another.
pub uninterp spec fn unicode_lowercase(text: Seq<char>) -> Seq<char>;

/// The characters of the URL-safe base64 alphabet.
pub open spec fn is_base64url_char(c: char) -> bool {
    ('A' <= c && c <= 'Z') || ('a' <= c && c <= 'z') || ('0' <= c && c <= '9') || c == '-' || c
        == '_'
}

/// A lowercase hexadecimal digit.
pub open spec fn hex_digit(n: int) -> char {
    if n < 10 {
        (('0' as int) + n) as char
    } else {
        (('a' as int) + n - 10) as char
    }
}

/// The hyphenated lowercase text of a UUID, `xxxxxxxx-xxxx-xxxx-xxxx-xxxxxxxxxxxx`,
/// with the 32 hexadecimal digits of its big-endian value.
pub open spec fn uuid_hyphenated(value: u128) -> Seq<char> {
    Seq::new(
        36,
        |i: int|
            if i == 8 || i == 13 || i == 18 || i == 23 {
                '-'
            } else {
                let digit = if i < 8 {
                    i
                } else if i < 13 {
                    i - 1
                } else if i < 18 {
                    i - 2
                } else if i < 23 {
                    i - 3
                } else {
                    i - 4
                };
                hex_digit(((value as int) / vstd::arithmetic::power2::pow2((4 * (31 - digit)) as nat) as int) % 16)
            },
    )
}

/// Encodes bytes with `base64`'s `URL_SAFE_NO_PAD` engine (`Engine::encode`).
/// Stated of the result: it is the engine's encoding of the bytes, the engine
/// decodes it back to the same bytes (the round trip RFC 4648 defines), it
/// has the unpadded length `encoded_len` computes (four characters for each
/// three bytes, two or three for a final one or two), and every character is
/// of the URL-safe alphabet.
#[verifier::external_body]
pub(crate) fn encode_base64url(bytes: &[u8]) -> (res: String)
    ensures
        res@ == base64url_encode(bytes@),
        base64url_decode(res@) == Some(bytes@),
        res@.len() == (4 * bytes@.len() + 2) / 3,
        forall|i: int| 0 <= i < res@.len() ==> is_base64url_char(#[trigger] res@[i]),
{
    base64::engine::general_purpose::URL_SAFE_NO_PAD.encode(bytes)
}

/// Decodes a text with `base64`'s `URL_SAFE_NO_PAD` engine (`Engine::decode`).
/// Stated: the result is the engine's decoding of the text's UTF-8 bytes, or
/// `None` where the engine returns an error.
#[verifier::external_body]
pub(crate) fn decode_base64url(text: &str) -> (res: Option<Vec<u8>>)
    ensures
        match res {
            Some(bytes) => base64url_decode(text@) == Some(bytes@),
            None => base64url_decode(text@) is None,
        },
{
    base64::engine::general_purpose::URL_SAFE_NO_PAD.decode(text).ok()
}

/// Computes `sha2::Sha256::digest` of some bytes.
#[verifier::external_body]
pub(crate) fn sha256_digest(bytes: &[u8]) -> (res: [u8; 32])
    ensures
        res@ == sha256(bytes@),
{
    sha2::Sha256::digest(bytes).into()
}

/// Compares two byte slices with `subtle`'s `ConstantTimeEq::ct_eq`, whose
/// source answers 1 exactly when the lengths and all the bytes agree.
#[verifier::external_body]
pub(crate) fn constant_time_eq(a: &[u8], b: &[u8]) -> (res: bool)
    ensures
        res == (a@ == b@),
{
    bool::from(a.ct_eq(b))
}

#[verifier::external_type_specification]
#[verifier::external_body]
pub struct ExRandomError(getrandom::Error);

/// Fills `n` bytes from the operating system's random source with
/// `getrandom::fill`. Stated: on success there are `n` bytes; which bytes
/// they are is chance, and nothing is said of them.
#[verifier::external_body]
pub(crate) fn random_bytes(n: usize) -> (res: Result<Vec<u8>, getrandom::Error>)
    ensures
        res matches Ok(bytes) ==> bytes@.len() == n,
{
    let mut bytes = vec![0u8; n];
    getrandom::fill(&mut bytes).map(|()| bytes)
}

/// Parses a UUID with `uuid::Uuid::parse_str`, giving its big-endian value.
#[verifier::external_body]
pub(crate) fn parse_uuid(text: &str) -> (res: Option<u128>)
    ensures
        res == uuid_parse(text@),
{
    uuid::Uuid::parse_str(text).ok().map(|id| id.as_u128())
}

/// Formats a UUID with `uuid::Uuid`'s `Display`, which writes the hyphenated
/// lowercase form; `parse_str` reads that form back to the same UUID.
#[verifier::external_body]
pub(crate) fn format_uuid(value: u128) -> (res: String)
    ensures
        res@ == uuid_hyphenated(value),
        uuid_parse(res@) == Some(value),
{
    uuid::Uuid::from_u128(value).to_string()
}

/// Asks `chrono::DateTime::from_timestamp_millis` whether a number of
/// milliseconds since the epoch is a representable instant. Its source
/// splits the milliseconds into days and the time of day and accepts the
/// day exactly when it falls in years -262143 to 262142, the range of
/// `NaiveDate`; those days span the milliseconds stated here.
#[verifier::external_body]
pub(crate) fn millis_in_range(millis: i64) -> (res: bool)
    ensures
        res == chrono_accepts_millis(millis),
{
    chrono::DateTime::from_timestamp_millis(millis).is_some()
}

/// Maps a text to lowercase with std's `str::to_lowercase`.
#[verifier::external_body]
pub(crate) fn to_lowercase(text: &str) -> (res: String)
    ensures
        res@ == unicode_lowercase(text@),
{
    text.to_lowercase()
}

} // verus!
