//! Calls into the hashing, encoding, clock and randomness crates.
//!
//! Each function here makes one outside call; its contract is what that
//! call's source and documentation give.
use vstd::prelude::*;
use base64::Engine;
use hmac::Mac;
use rand::Rng;

verus! {

/// HMAC-SHA256 tag of `msg` under `key` (hmac + sha2).
pub uninterp spec fn hmac_sha256_tag(key: Seq<u8>, msg: Seq<u8>) -> Seq<u8>;

/// URL-safe, unpadded base64 text of `bytes` (base64 `URL_SAFE_NO_PAD`).
pub uninterp spec fn b64url_text(bytes: Seq<u8>) -> Seq<char>;

/// Decoding of URL-safe, unpadded base64 text; `None` when it does not decode.
pub uninterp spec fn b64url_bytes(text: Seq<u8>) -> Option<Seq<u8>>;

/// Parse of an RFC 3339 timestamp into whole seconds and nanoseconds since the epoch.
pub uninterp spec fn rfc3339_instant(text: Seq<char>) -> Option<(i64, u32)>;

/// Characters of the URL-safe base64 alphabet.
pub open spec fn is_b64url_char(c: char) -> bool {
    ('A' <= c && c <= 'Z') || ('a' <= c && c <= 'z') || ('0' <= c && c <= '9') || c == '-' || c == '_'
}

/// UTF-8 bytes of a character sequence.
pub open spec fn utf8(s: Seq<char>) -> Seq<u8> {
    vstd::utf8::encode_utf8(s)
}

/// `Hmac::<Sha256>::new_from_slice(key)`, `update(msg)`, `finalize()`: the
/// tag is a function of key and message. HMAC accepts keys of any length.
#[verifier::external_body]
pub(crate) fn hmac_sha256(key: &[u8], msg: &[u8]) -> (r: Vec<u8>)
    ensures
        r@ == hmac_sha256_tag(key@, msg@),
        r@.len() == 32,
{
    let mut mac = hmac::Hmac::<sha2::Sha256>::new_from_slice(key).expect("HMAC accepts any key length");
    mac.update(msg);
    mac.finalize().into_bytes().to_vec()
}

/// `Mac::verify_slice`: succeeds exactly when `tag` equals the tag of `msg`
/// under `key` (the source compares lengths, then bytes in constant time).
#[verifier::external_body]
pub(crate) fn hmac_sha256_verify(key: &[u8], msg: &[u8], tag: &[u8]) -> (r: bool)
    ensures
        r == (tag@ == hmac_sha256_tag(key@, msg@)),
{
    let mut mac = hmac::Hmac::<sha2::Sha256>::new_from_slice(key).expect("HMAC accepts any key length");
    mac.update(msg);
    mac.verify_slice(tag).is_ok()
}

/// `URL_SAFE_NO_PAD.encode(bytes)`. Its output uses only the URL-safe
/// alphabet and decodes back to the input (the crate's round-trip tests).
/// The length bound keeps the output size computation from overflowing.
#[verifier::external_body]
pub(crate) fn b64url_encode(bytes: &[u8]) -> (r: String)
    requires
        bytes@.len() <= usize::MAX / 2,
    ensures
        r@ == b64url_text(bytes@),
        forall|i: int| 0 <= i < r@.len() ==> is_b64url_char(#[trigger] r@[i]),
        b64url_bytes(utf8(r@)) == Some(bytes@),
{
    base64::engine::general_purpose::URL_SAFE_NO_PAD.encode(bytes)
}

/// `URL_SAFE_NO_PAD.decode(text)`.
#[verifier::external_body]
pub(crate) fn b64url_decode(text: &[u8]) -> (r: Option<Vec<u8>>)
    ensures
        match r {
            Some(v) => b64url_bytes(text@) == Some(v@),
            None => b64url_bytes(text@) is None,
        },
{
    base64::engine::general_purpose::URL_SAFE_NO_PAD.decode(text).ok()
}

/// `rand::rng().random::<u64>()`: any value.
#[verifier::external_body]
pub(crate) fn random_u64() -> (r: u64) {
    rand::rng().random::<u64>()
}

/// The largest count of seconds since the epoch that this crate formats as
/// a time: about the year 255000, inside chrono's range (which ends with the
/// year 262143).
pub const MAX_TIMESTAMP_SECS: u64 = 8_000_000_000_000;

/// RFC 3339 text of the instant `secs` seconds and `nanos` nanoseconds after
/// the Unix epoch, in UTC (chrono's `DateTime::<Utc>::to_rfc3339`).
pub uninterp spec fn rfc3339_text(secs: u64, nanos: u32) -> Seq<char>;

/// `SystemTime::now().duration_since(UNIX_EPOCH)` as whole seconds and the
/// nanoseconds of the second (which std documents as below one billion); a
/// clock set before the epoch, where std returns an error, reads as the epoch.
#[verifier::external_body]
pub(crate) fn system_now() -> (r: (u64, u32))
    ensures
        r.1 < 1_000_000_000,
{
    match std::time::SystemTime::now().duration_since(std::time::UNIX_EPOCH) {
        Ok(d) => (d.as_secs(), d.subsec_nanos()),
        Err(_) => (0, 0),
    }
}

/// `chrono::DateTime::from_timestamp(secs, nanos)` and `to_rfc3339()`.
/// `from_timestamp` gives `Some` for every instant inside chrono's range with
/// fewer than a billion nanoseconds, which the bounds keep to; writing to a
/// `String` does not fail.
#[verifier::external_body]
pub(crate) fn format_rfc3339(secs: u64, nanos: u32) -> (r: String)
    requires
        secs <= MAX_TIMESTAMP_SECS,
        nanos < 1_000_000_000,
    ensures
        r@ == rfc3339_text(secs, nanos),
{
    match chrono::DateTime::from_timestamp(secs as i64, nanos) {
        Some(dt) => dt.to_rfc3339(),
        None => String::new(),
    }
}

/// `chrono::DateTime::parse_from_rfc3339(text)`, as seconds and nanoseconds since the epoch.
#[verifier::external_body]
pub(crate) fn parse_rfc3339(text: &str) -> (r: Option<(i64, u32)>)
    ensures
        r == rfc3339_instant(text@),
{
    chrono::DateTime::parse_from_rfc3339(text).ok().map(|dt| (dt.timestamp(), dt.timestamp_subsec_nanos()))
}

/// A lowercase hexadecimal digit.
pub open spec fn is_hex_lower(c: char) -> bool {
    ('0' <= c && c <= '9') || ('a' <= c && c <= 'f')
}

/// Hyphenated lowercase text of a version-4 UUID: 32 hex digits in groups of
/// 8, 4, 4, 4 and 12, with the version digit `4` opening the third group.
pub open spec fn is_uuid_v4_text(s: Seq<char>) -> bool {
    &&& s.len() == 36
    &&& forall|i: int| 0 <= i < 36 ==> if i == 8 || i == 13 || i == 18 || i == 23 {
            #[trigger] s[i] == '-'
        } else {
            is_hex_lower(s[i])
        }
    &&& s[14] == '4'
}

/// `uuid::Uuid::new_v4().to_string()`: random bits with the version set to 4
/// (uuid's `v4.rs`), shown hyphenated in lowercase hex (`Display` is
/// `LowerHex`, which writes the hyphenated form).
#[verifier::external_body]
pub(crate) fn new_uuid_v4() -> (r: String)
    ensures
        is_uuid_v4_text(r@),
{
    uuid::Uuid::new_v4().to_string()
}

/// `rand::rng().random::<[u8; 32]>()`: 32 random bytes.
#[verifier::external_body]
pub(crate) fn random_bytes_32() -> (r: Vec<u8>)
    ensures
        r@.len() == 32,
{
    rand::rng().random::<[u8; 32]>().to_vec()
}

} // verus!
