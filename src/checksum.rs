//! EIP-55 checksum casing of hex addresses.

use vstd::prelude::*;

use crate::primitives::{
    ascii_lowercase, ascii_upper, keccak256, keccak_of, push_char, upper_first, upper_first_of,
};
use crate::text::chars_of;
use vstd::utf8::encode_utf8;

verus! {

/// Nibble `i` of the digest: the high nibble of byte `i / 2` for even `i`,
/// the low nibble for odd `i`.
pub open spec fn nibble(h: Seq<u8>, i: int) -> u8 {
    if i % 2 == 0 {
        h[i / 2] / 16
    } else {
        h[i / 2] % 16
    }
}

/// The upper-case form that the encoder writes for a char.
pub open spec fn upper_of(c: char) -> char {
    if (c as u32) < 128 {
        ascii_upper(c)
    } else {
        upper_first_of(c)
    }
}

/// Casing of `s` by the digest `h`: the char at `i` is upper-cased when
/// nibble `i` of `h` is 8 or more. Chars past the digest's nibbles stay.
pub open spec fn apply_checksum(s: Seq<char>, h: Seq<u8>) -> Seq<char> {
    Seq::new(
        s.len(),
        |i: int|
            if i / 2 < h.len() && nibble(h, i) >= 8 {
                upper_of(s[i])
            } else {
                s[i]
            },
    )
}

/// The checksummed form of `s`, cased by the Keccak-256 digest of its own
/// UTF-8 bytes.
pub open spec fn checksum_of(s: Seq<char>) -> Seq<char> {
    apply_checksum(s, keccak_of(encode_utf8(s)))
}

/// A lowercase hex digit: `0-9` or `a-f`.
pub open spec fn is_lower_hex_digit(c: char) -> bool {
    ('0' <= c && c <= '9') || ('a' <= c && c <= 'f')
}

/// Forty lowercase hex digits: the internal form of an address.
pub open spec fn is_lower_hex_address(s: Seq<char>) -> bool {
    s.len() == 40 && forall|i: int| 0 <= i < s.len() ==> is_lower_hex_digit(#[trigger] s[i])
}

/// Writes `address` in EIP-55 casing: each char whose digest nibble is 8 or
/// more is upper-cased, the others are kept.
pub fn to_checksum_address(address: &str) -> (r: String)
    ensures
        r@ == checksum_of(address@),
{
    let hash = keccak256(address.as_bytes());
    let chars = chars_of(address);
    let ghost target = apply_checksum(address@, hash@);
    let mut out = String::new();
    let mut i: usize = 0;
    while i < chars.len()
        invariant
            i <= chars@.len(),
            chars@ == address@,
            hash@.len() == 32,
            target == apply_checksum(address@, hash@),
            out@ == target.subrange(0, i as int),
        decreases chars@.len() - i,
    {
        let c = chars[i];
        let raise = if i / 2 < 32 {
            let byte = hash[i / 2];
            let nib = if i % 2 == 0 {
                byte / 16
            } else {
                byte % 16
            };
            nib >= 8
        } else {
            false
        };
        if raise {
            let u = upper_first(c);
            push_char(&mut out, u);
        } else {
            push_char(&mut out, c);
        }
        i = i + 1;
        assert(out@ =~= target.subrange(0, i as int));
    }
    assert(out@ =~= target);
    out
}

/// For forty lowercase hex digits the encoder only changes case: digits are
/// kept, and each letter is kept or upper-cased.
pub proof fn lemma_checksum_only_cases(s: Seq<char>)
    requires
        is_lower_hex_address(s),
    ensures
        checksum_of(s).len() == s.len(),
        forall|i: int|
            0 <= i < s.len() ==> (#[trigger] checksum_of(s)[i] == s[i] || checksum_of(s)[i]
                == ascii_upper(s[i])),
        forall|i: int|
            0 <= i < s.len() && '0' <= s[i] && s[i] <= '9' ==> #[trigger] checksum_of(s)[i]
                == s[i],
{
    assert forall|i: int| 0 <= i < s.len() implies #[trigger] upper_of(s[i]) == ascii_upper(s[i]) by {
        assert(is_lower_hex_digit(s[i]));
    }
}

/// Re-encoding is stable: lower-casing the checksummed form of forty
/// lowercase hex digits gives them back, so encoding that again gives the
/// same checksummed form.
pub proof fn lemma_checksum_idempotent(s: Seq<char>)
    requires
        is_lower_hex_address(s),
    ensures
        ascii_lowercase(checksum_of(s)) == s,
        checksum_of(ascii_lowercase(checksum_of(s))) == checksum_of(s),
{
    lemma_checksum_only_cases(s);
    assert forall|i: int| 0 <= i < s.len() implies #[trigger] ascii_lowercase(checksum_of(s))[i]
        == s[i] by {
        assert(is_lower_hex_digit(s[i]));
    }
    assert(ascii_lowercase(checksum_of(s)) =~= s);
}

} // verus!
