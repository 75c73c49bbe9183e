//! The outside primitives the engine is built on: Keccak-256, hex encoding,
//! secp256k1 key derivation, the system random source, and std's Unicode
//! case mappings. Every item here is trusted; its doc comment names what it
//! relies on.

use vstd::prelude::*;

use rand::rngs::OsRng;
use rand::Rng;
use secp256k1::{PublicKey, SecretKey};
use sha3::{Digest, Keccak256};
use vstd::utf8::is_ascii_chars;

verus! {

/// The order n of the secp256k1 group.
pub open spec fn curve_order() -> int {
    ((0xFFFFFFFFFFFFFFFFu64 as int * 0x10000000000000000int + 0xFFFFFFFFFFFFFFFEu64 as int)
        * 0x10000000000000000int + 0xBAAEDCE6AF48A03Bu64 as int) * 0x10000000000000000int
        + 0xBFD25E8CD0364141u64 as int
}

/// The unsigned big-endian integer that the bytes spell.
pub open spec fn be_value(b: Seq<u8>) -> nat
    decreases b.len(),
{
    if b.len() == 0 {
        0
    } else {
        (be_value(b.drop_last()) * 256 + b.last()) as nat
    }
}

/// 32 bytes that encode a secp256k1 secret scalar: big-endian, in [1, n - 1].
pub open spec fn is_valid_secret(b: Seq<u8>) -> bool {
    b.len() == 32 && 0 < be_value(b) && be_value(b) < curve_order()
}

/// The lowercase hex digit of a nibble.
pub open spec fn hex_digit(n: u8) -> char {
    if n < 10 {
        (48 + n) as char
    } else {
        (87 + n) as char
    }
}

/// Lowercase hex of the bytes: two digits per byte, high nibble first.
pub open spec fn hex_of(b: Seq<u8>) -> Seq<char> {
    Seq::new(
        2 * b.len(),
        |i: int|
            if i % 2 == 0 {
                hex_digit(b[i / 2] / 16)
            } else {
                hex_digit(b[i / 2] % 16)
            },
    )
}

/// An ASCII char mapped to upper case (a-z to A-Z, others unchanged).
pub open spec fn ascii_upper(c: char) -> char {
    if 'a' <= c && c <= 'z' {
        ((c as u32) - 32) as char
    } else {
        c
    }
}

/// An ASCII char mapped to lower case (A-Z to a-z, others unchanged).
pub open spec fn ascii_lower(c: char) -> char {
    if 'A' <= c && c <= 'Z' {
        ((c as u32) + 32) as char
    } else {
        c
    }
}

/// Every char of the sequence mapped to ASCII lower case.
pub open spec fn ascii_lowercase(s: Seq<char>) -> Seq<char> {
    Seq::new(s.len(), |i: int| ascii_lower(s[i]))
}

/// The Keccak-256 digest of the bytes.
pub uninterp spec fn keccak_of(data: Seq<u8>) -> Seq<u8>;

/// The 65-byte uncompressed encoding (0x04, X, Y) of the public point of a
/// valid secret scalar.
pub uninterp spec fn public_point_of(secret: Seq<u8>) -> Seq<u8>;

/// The first char of the Unicode upper-case mapping of a non-ASCII char.
pub uninterp spec fn upper_first_of(c: char) -> char;

/// The Unicode lower-case mapping of a string.
pub uninterp spec fn lower_of(s: Seq<char>) -> Seq<char>;

/// Relies on sha3's `Keccak256::digest`: the 32-byte Keccak-256 digest of the
/// input, which depends on the input alone.
#[verifier::external_body]
pub(crate) fn keccak256(data: &[u8]) -> (r: [u8; 32])
    ensures
        r@ == keccak_of(data@),
{
    Keccak256::digest(data).into()
}

/// Relies on `hex::encode`: two lowercase hex digits per byte, high nibble first.
#[verifier::external_body]
pub(crate) fn hex_encode(bytes: &[u8]) -> (r: String)
    ensures
        r@ == hex_of(bytes@),
{
    hex::encode(bytes)
}

/// Relies on secp256k1's `SecretKey::from_slice`, which accepts exactly the
/// big-endian scalars in [1, n - 1], then on `PublicKey::from_secret_key_global`
/// and `PublicKey::serialize_uncompressed` for the public point.
#[verifier::external_body]
pub(crate) fn uncompressed_public_key(secret: &[u8; 32]) -> (r: Option<[u8; 65]>)
    ensures
        r is Some <==> is_valid_secret(secret@),
        r is Some ==> r->0@ == public_point_of(secret@),
{
    match SecretKey::from_slice(secret) {
        Ok(sk) => Some(PublicKey::from_secret_key_global(&sk).serialize_uncompressed()),
        Err(_) => None,
    }
}

/// Relies on rand's `OsRng` through `Rng::fill`: 32 bytes from the operating
/// system's generator. Nothing is known of them.
#[verifier::external_body]
pub(crate) fn random_bytes32() -> (r: [u8; 32]) {
    let mut b = [0u8; 32];
    OsRng.fill(&mut b);
    b
}

/// Relies on `char::to_uppercase`, keeping its first char (the mapping is
/// never empty). On ASCII it maps a-z to A-Z and leaves the rest.
#[verifier::external_body]
pub(crate) fn upper_first(c: char) -> (r: char)
    ensures
        (c as u32) < 128 ==> r == ascii_upper(c),
        (c as u32) >= 128 ==> r == upper_first_of(c),
{
    c.to_uppercase().next().unwrap()
}

/// Relies on `str::to_lowercase`: the result depends on the chars alone, and
/// ASCII text maps A-Z to a-z char by char.
#[verifier::external_body]
pub(crate) fn lowercase(s: &str) -> (r: String)
    ensures
        r@ == lower_of(s@),
        is_ascii_chars(s@) ==> r@ == ascii_lowercase(s@),
{
    s.to_lowercase()
}

/// Relies on `String::push`: appends one char.
#[verifier::external_body]
pub(crate) fn push_char(s: &mut String, c: char)
    ensures
        final(s)@ == old(s)@.push(c),
{
    s.push(c)
}

} // verus!
