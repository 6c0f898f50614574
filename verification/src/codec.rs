//! Thin trusted bridges to the encoding, hashing, time and randomness
//! crates. Every function here makes exactly one outside call; what the
//! library proves elsewhere rests on the contracts stated here.

use base64::Engine;
use rand::Rng;
use sha2::Digest;
use vstd::prelude::*;

verus! {

/// Milliseconds since the Unix epoch that `chrono::DateTime::parse_from_rfc3339`
/// followed by `timestamp_millis` assigns to a text, or `None` when the text
/// is not an RFC 3339 date-time.
pub uninterp spec fn rfc3339_millis(text: Seq<char>) -> Option<i64>;

/// The SHA-256 digest of a byte sequence, as computed by the `sha2` crate.
pub uninterp spec fn sha256(data: Seq<u8>) -> Seq<u8>;

/// The padded standard-alphabet Base64 text of a byte sequence, as produced
/// by `base64::engine::general_purpose::STANDARD`.
pub uninterp spec fn base64_standard(data: Seq<u8>) -> Seq<char>;

/// The unpadded URL-safe Base64 text of a byte sequence, as produced by
/// `base64::engine::general_purpose::URL_SAFE_NO_PAD_INDIFFERENT`.
pub uninterp spec fn base64_url(data: Seq<u8>) -> Seq<char>;

/// The bytes that `URL_SAFE_NO_PAD_INDIFFERENT` decodes from a text, or
/// `None` when the engine rejects it.
pub uninterp spec fn base64_url_decoded(text: Seq<char>) -> Option<Seq<u8>>;

/// The Ed25519 public key that `ed25519_dalek` derives from a secret key.
pub uninterp spec fn ed25519_public_key(secret: Seq<u8>) -> Seq<u8>;

/// Every RFC 3339 text that chrono accepts has a four-digit year and an
/// offset below a day, so its instant lies within this many milliseconds of
/// the epoch.
pub const TIMESTAMP_BOUND_MS: i64 = 300_000_000_000_000;

/// Chrono represents no instant past the end of year 262142, which is fewer
/// than this many seconds after the epoch.
pub const CLOCK_SECONDS_BOUND: i64 = 9_000_000_000_000;

/// Lower-case hexadecimal digit of a nibble.
pub open spec fn hex_digit(n: u8) -> char {
    if n < 10 {
        ('0' as u8 + n) as char
    } else {
        ('a' as u8 + (n - 10)) as char
    }
}

/// Lower-case hexadecimal text of a byte sequence, two digits per byte,
/// high nibble first.
pub open spec fn hex_lower(data: Seq<u8>) -> Seq<char>
    decreases data.len(),
{
    if data.len() == 0 {
        Seq::empty()
    } else {
        hex_lower(data.drop_last()) + seq![hex_digit(data.last() / 16), hex_digit(data.last() % 16)]
    }
}

/// The length of unpadded Base64 text for `n` bytes: four characters per
/// three bytes, and two or three for a final group of one or two bytes.
pub open spec fn unpadded_base64_len(n: nat) -> nat {
    (n / 3) * 4 + if n % 3 == 0 {
        0
    } else {
        n % 3 + 1
    }
}

/// The 64 characters of the URL-safe Base64 alphabet.
pub open spec fn is_base64_url_char(c: char) -> bool {
    ||| ('a' <= c && c <= 'z')
    ||| ('A' <= c && c <= 'Z')
    ||| ('0' <= c && c <= '9')
    ||| c == '-'
    ||| c == '_'
}

/// The 64 characters of nanoid's URL-safe alphabet.
pub open spec fn is_safe_id_char(c: char) -> bool {
    ||| ('a' <= c && c <= 'z')
    ||| ('A' <= c && c <= 'Z')
    ||| ('0' <= c && c <= '9')
    ||| c == '_'
    ||| c == '-'
}

/// Calls `chrono::DateTime::parse_from_rfc3339` and, on success, reads the
/// instant with `timestamp_millis`. The result is named by `rfc3339_millis`;
/// chrono's parser only admits years 0000 to 9999 and offsets under 24 hours,
/// which bounds the instant.
#[verifier::external_body]
pub(crate) fn parse_rfc3339_millis(text: &str) -> (r: Option<i64>)
    ensures
        r == rfc3339_millis(text@),
        r matches Some(ms) ==> -TIMESTAMP_BOUND_MS <= ms <= TIMESTAMP_BOUND_MS,
{
    match chrono::DateTime::parse_from_rfc3339(text) {
        Ok(dt) => Some(dt.timestamp_millis()),
        Err(_) => None,
    }
}

/// Reads the wall clock through `chrono::Utc::now` and returns the instant as
/// whole seconds since the epoch and the nanoseconds past that second. Which
/// instant is the time; chrono builds it from the system clock's duration
/// since the epoch (panicking on a clock set before 1970, and, through
/// `DateTime::from_timestamp(..).unwrap()`, on one past chrono's last date in
/// year 262142), so the seconds are not negative, lie below
/// `CLOCK_SECONDS_BOUND`, and the nanoseconds are below one second.
#[verifier::external_body]
pub(crate) fn utc_now() -> (r: (i64, u32))
    ensures
        0 <= r.0 <= CLOCK_SECONDS_BOUND,
        r.1 < 1_000_000_000,
{
    let now = chrono::Utc::now();
    (now.timestamp(), now.timestamp_subsec_nanos())
}

/// Calls `sha2::Sha256::digest`; the result is named by `sha256` and is 32
/// bytes long, the digest size of SHA-256.
#[verifier::external_body]
pub(crate) fn sha256_digest(data: &[u8]) -> (r: Vec<u8>)
    ensures
        r@ == sha256(data@),
        r@.len() == 32,
{
    sha2::Sha256::digest(data).to_vec()
}

/// Calls `hex::encode`, which writes each byte as two lower-case hexadecimal
/// digits, high nibble first.
#[verifier::external_body]
pub(crate) fn hex_encode(data: &[u8]) -> (r: String)
    ensures
        r@ == hex_lower(data@),
{
    hex::encode(data)
}

/// Calls `Engine::encode` of `base64`'s `STANDARD` engine; the result is
/// named by `base64_standard`.
#[verifier::external_body]
pub(crate) fn base64_standard_encode(data: &[u8]) -> (r: String)
    ensures
        r@ == base64_standard(data@),
{
    base64::engine::general_purpose::STANDARD.encode(data)
}

/// Calls `Engine::encode` of `base64`'s `URL_SAFE_NO_PAD_INDIFFERENT` engine;
/// the result is named by `base64_url`, and the same engine decodes it back to
/// the input (the engine writes no padding and no trailing bits, and its
/// decoder accepts text without padding). Its text has the unpadded length
/// that `base64::encoded_len` computes and uses only the URL-safe alphabet.
#[verifier::external_body]
pub(crate) fn base64_url_encode(data: &[u8]) -> (r: String)
    ensures
        r@ == base64_url(data@),
        base64_url_decoded(r@) == Some(data@),
        r@.len() == unpadded_base64_len(data@.len()),
        forall|i: int| 0 <= i < r@.len() ==> is_base64_url_char(#[trigger] r@[i]),
{
    base64::engine::general_purpose::URL_SAFE_NO_PAD_INDIFFERENT.encode(data)
}

/// The error type of `base64` decoding, carried through unread.
#[verifier::external_type_specification]
#[verifier::external_body]
pub struct ExDecodeError(base64::DecodeError);

/// Calls `Engine::decode` of `base64`'s `URL_SAFE_NO_PAD_INDIFFERENT` engine
/// on the bytes of a text; the outcome is named by `base64_url_decoded`.
#[verifier::external_body]
pub(crate) fn base64_url_decode(text: &str) -> (r: Result<Vec<u8>, base64::DecodeError>)
    ensures
        r is Ok <==> base64_url_decoded(text@) is Some,
        r matches Ok(bytes) ==> base64_url_decoded(text@) == Some(bytes@),
{
    base64::engine::general_purpose::URL_SAFE_NO_PAD_INDIFFERENT.decode(text.as_bytes())
}

/// Calls `nanoid::format` with nanoid's default random source and its `SAFE`
/// alphabet, as the `nanoid!` macro does. With a 64-character alphabet the
/// crate draws exactly `size` random bytes and maps each to one alphabet
/// character, so the identifier has `size` characters, all from `SAFE`. The
/// random source panics if the operating system cannot supply randomness.
#[verifier::external_body]
pub(crate) fn safe_nanoid(size: usize) -> (r: String)
    ensures
        r@.len() == size,
        forall|i: int| 0 <= i < r@.len() ==> is_safe_id_char(#[trigger] r@[i]),
{
    nanoid::format(nanoid::rngs::default, &nanoid::alphabet::SAFE, size)
}

/// Fills a 32-byte Ed25519 secret key from the operating system's random
/// source through `rand::rngs::SysRng` (wrapped in `UnwrapErr`, which panics
/// if the operating system cannot supply randomness). Nothing is promised of
/// the bytes.
#[verifier::external_body]
pub(crate) fn random_secret_key() -> (r: [u8; 32]) {
    let mut secret = [0u8; 32];
    rand::rand_core::UnwrapErr(rand::rngs::SysRng).fill_bytes(&mut secret);
    secret
}

/// Calls `ed25519_dalek::SigningKey::from_bytes` and reads the public half
/// with `verifying_key().to_bytes()`; the result is named by
/// `ed25519_public_key`.
#[verifier::external_body]
pub(crate) fn ed25519_verifying_key(secret: &[u8; 32]) -> (r: [u8; 32])
    ensures
        r@ == ed25519_public_key(secret@),
{
    ed25519_dalek::SigningKey::from_bytes(secret).verifying_key().to_bytes()
}

} // verus!
