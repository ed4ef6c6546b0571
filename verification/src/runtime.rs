//! Calls into the clock, the random number generators and the encoding crates.
use vstd::prelude::*;
use base64::Engine;
use md5::Digest;
use vstd::string::StringSliceAdditionalSpecFns;

verus! {

/// The current time, written as RFC 3339 (`chrono::Utc::now().to_rfc3339()`).
/// It depends on the clock, so nothing is stated of it.
#[verifier::external_body]
pub fn now_rfc3339() -> String {
    chrono::Utc::now().to_rfc3339()
}

/// The current time in milliseconds since the Unix epoch
/// (`chrono::Utc::now().timestamp_millis()`). It depends on the clock, so nothing
/// is stated of it.
#[verifier::external_body]
pub fn now_millis() -> i64 {
    chrono::Utc::now().timestamp_millis()
}

/// The current time in whole seconds since the Unix epoch
/// (`chrono::Utc::now().timestamp()`). It depends on the clock, so nothing is
/// stated of it.
#[verifier::external_body]
pub fn now_seconds() -> i64 {
    chrono::Utc::now().timestamp()
}

/// A fresh random version-4 UUID in its hyphenated form
/// (`uuid::Uuid::new_v4().to_string()`): 36 characters, whatever the draw.
#[verifier::external_body]
pub fn new_uuid() -> (r: String)
    ensures
        r@.len() == 36,
{
    uuid::Uuid::new_v4().to_string()
}

/// The 128 bits of a fresh random version-4 UUID (`uuid::Uuid::new_v4().as_u128()`);
/// nothing is stated of the draw.
#[verifier::external_body]
pub fn uuid_bits() -> u128 {
    uuid::Uuid::new_v4().as_u128()
}

/// A random 64-bit number (`fastrand::u64(..)`); nothing is stated of the draw.
#[verifier::external_body]
pub fn random_u64() -> u64 {
    fastrand::u64(..)
}

/// A random byte (`fastrand::u8(..)`); nothing is stated of the draw.
#[verifier::external_body]
pub fn random_u8() -> u8 {
    fastrand::u8(..)
}

/// The MD5 digest of a byte string.
pub uninterp spec fn md5_of(data: Seq<u8>) -> Seq<u8>;

/// `md5::Md5::digest`: the 16-byte MD5 digest of `data`.
#[verifier::external_body]
pub fn md5_digest(data: &[u8]) -> (r: Vec<u8>)
    ensures
        r@ == md5_of(data@),
        r@.len() == 16,
{
    md5::Md5::digest(data).to_vec()
}

/// The lower-case hexadecimal digit of a value below 16.
pub open spec fn hex_digit(v: u8) -> char {
    if v < 10 {
        (48 + v) as char
    } else {
        (87 + v) as char
    }
}

/// Lower-case hexadecimal text of a byte string, two digits per byte, high first.
pub open spec fn hex_lower(data: Seq<u8>) -> Seq<char>
    decreases data.len(),
{
    if data.len() == 0 {
        Seq::empty()
    } else {
        hex_lower(data.drop_last()) + seq![hex_digit(data.last() / 16), hex_digit(data.last() % 16)]
    }
}

/// `hex::encode`: lower-case hexadecimal text, two digits per byte.
#[verifier::external_body]
pub fn hex_encode(data: &[u8]) -> (r: String)
    ensures
        r@ == hex_lower(data@),
{
    hex::encode(data)
}

/// The standard Base64 text of a byte string.
pub uninterp spec fn base64_text(data: Seq<u8>) -> Seq<char>;

/// `base64::engine::general_purpose::STANDARD.encode`.
#[verifier::external_body]
pub fn base64_encode(data: &[u8]) -> (r: String)
    ensures
        r@ == base64_text(data@),
{
    base64::engine::general_purpose::STANDARD.encode(data)
}

/// What standard Base64 decoding gives for a text: the bytes, or `None` when the
/// text is not valid Base64.
pub uninterp spec fn base64_bytes(text: Seq<char>) -> Option<Seq<u8>>;

/// `base64::engine::general_purpose::STANDARD.decode`, with the error dropped.
#[verifier::external_body]
pub fn base64_decode(text: &str) -> (r: Option<Vec<u8>>)
    ensures
        match r {
            Some(v) => base64_bytes(text@) == Some(v@),
            None => base64_bytes(text@).is_none(),
        },
{
    base64::engine::general_purpose::STANDARD.decode(text).ok()
}

/// The text that `String::from_utf8_lossy` makes of a byte string.
pub uninterp spec fn utf8_lossy_text(data: Seq<u8>) -> Seq<char>;

/// std's `String::from_utf8_lossy`: the bytes read as UTF-8, with each invalid
/// sequence replaced by U+FFFD.
#[verifier::external_body]
pub fn utf8_lossy(data: &[u8]) -> (r: String)
    ensures
        r@ == utf8_lossy_text(data@),
{
    String::from_utf8_lossy(data).into_owned()
}

/// The UTF-8 bytes of a string (std's `str::as_bytes`, copied).
pub fn utf8_bytes(s: &str) -> (r: Vec<u8>)
    ensures
        r@ == s.spec_bytes(),
{
    let b = s.as_bytes();
    let mut r: Vec<u8> = Vec::new();
    let mut i: usize = 0;
    while i < b.len()
        invariant
            b@ == s.spec_bytes(),
            i <= b@.len(),
            r@ == b@.subrange(0, i as int),
        decreases b.len() - i,
    {
        r.push(b[i]);
        i = i + 1;
        assert(r@ == b@.subrange(0, i as int));
    }
    assert(b@.subrange(0, b@.len() as int) =~= b@);
    r
}

/// What `chrono` writes, in the form of RFC 2822, for a time read from RFC 3339
/// text; none when the text is not such a time.
pub uninterp spec fn rfc2822_of(rfc3339: Seq<char>) -> Option<Seq<char>>;

/// Rewrites an RFC 3339 time as RFC 2822 (`chrono::DateTime::parse_from_rfc3339`,
/// then `to_rfc2822`). The contract claims only that the outcome is determined
/// by the text, named by `rfc2822_of`.
#[verifier::external_body]
pub fn rfc2822_from_rfc3339(s: &str) -> (r: Option<String>)
    ensures
        match r {
            Some(t) => rfc2822_of(s@) == Some(t@),
            None => rfc2822_of(s@) is None,
        },
{
    chrono::DateTime::parse_from_rfc3339(s).ok().map(|d| d.to_rfc2822())
}

} // verus!
