//! Pattern policies: compiled once from the user's pattern, then tested
//! against every checksummed candidate address.

use vstd::prelude::*;

use crate::checksum::{checksum_of, to_checksum_address};
use crate::primitives::{ascii_lowercase, lower_of, lowercase};
use vstd::utf8::is_ascii_chars;
use crate::text::{chars_of, string_of};

verus! {

/// How a candidate address is judged. Matching is case-sensitive and reads
/// the checksummed address without its `0x` prefix.
#[derive(Debug, Clone, PartialEq, Eq)]
pub enum PatternPolicy {
    /// The address starts and ends with the needle.
    ExactBoth(String),
    /// The first four chars are one repeated char, and so are the last four.
    WildcardCorners4Same,
    /// The first four chars have the shape `aabb`, and so do the last four.
    WildcardCorners4AABB,
    /// The first four chars have the shape `abab`, and so do the last four.
    WildcardCorners4ABAB,
    /// The address starts and ends with the needle (other wildcard bodies).
    WildcardContainsBoth(String),
}

/// `*body*` with a non-empty body.
pub open spec fn is_wildcard(raw: Seq<char>) -> bool {
    raw.len() > 2 && raw[0] == '*' && raw[raw.len() - 1] == '*'
}

/// The text between the two stars of a wildcard pattern.
pub open spec fn wildcard_body(raw: Seq<char>) -> Seq<char> {
    raw.subrange(1, raw.len() - 1)
}

/// The wildcard bodies with a corner rule of their own.
pub open spec fn body_same() -> Seq<char> {
    seq!['a', 'a', 'a', 'a']
}

pub open spec fn body_aabb() -> Seq<char> {
    seq!['a', 'a', 'b', 'b']
}

pub open spec fn body_abab() -> Seq<char> {
    seq!['a', 'b', 'a', 'b']
}

/// The policy chosen for already lower-cased text: `wildcard` tells whether
/// the text is the body of a wildcard pattern or the whole pattern.
pub open spec fn policy_for_lowered(wildcard: bool, text: Seq<char>, p: PatternPolicy) -> bool {
    if wildcard {
        if text == body_same() {
            p is WildcardCorners4Same
        } else if text == body_aabb() {
            p is WildcardCorners4AABB
        } else if text == body_abab() {
            p is WildcardCorners4ABAB
        } else {
            p is WildcardContainsBoth && p->WildcardContainsBoth_0@ == checksum_of(text)
        }
    } else {
        p is ExactBoth && p->ExactBoth_0@ == checksum_of(text)
    }
}

/// The policy that the raw pattern compiles to.
pub open spec fn compiles_to(raw: Seq<char>, p: PatternPolicy) -> bool {
    if is_wildcard(raw) {
        policy_for_lowered(true, lower_of(wildcard_body(raw)), p)
    } else {
        policy_for_lowered(false, lower_of(raw), p)
    }
}

/// The policy that an ASCII pattern compiles to: as `compiles_to`, with
/// ASCII lower-casing.
pub open spec fn compiles_ascii_to(raw: Seq<char>, p: PatternPolicy) -> bool {
    if is_wildcard(raw) {
        policy_for_lowered(true, ascii_lowercase(wildcard_body(raw)), p)
    } else {
        policy_for_lowered(false, ascii_lowercase(raw), p)
    }
}

/// `a` begins with `n` and ends with `n`.
pub open spec fn starts_and_ends_with(a: Seq<char>, n: Seq<char>) -> bool {
    n.len() <= a.len() && a.subrange(0, n.len() as int) == n && a.subrange(
        a.len() - n.len(),
        a.len() as int,
    ) == n
}

/// The four chars from `k` are one repeated char.
pub open spec fn same4(a: Seq<char>, k: int) -> bool {
    a[k] == a[k + 1] && a[k + 1] == a[k + 2] && a[k + 2] == a[k + 3]
}

/// The four chars from `k` have the shape `aabb` with `a != b`.
pub open spec fn aabb4(a: Seq<char>, k: int) -> bool {
    a[k] == a[k + 1] && a[k + 2] == a[k + 3] && a[k] != a[k + 2]
}

/// The four chars from `k` have the shape `abab` with `a != b`.
pub open spec fn abab4(a: Seq<char>, k: int) -> bool {
    a[k] == a[k + 2] && a[k + 1] == a[k + 3] && a[k] != a[k + 1]
}

/// Whether the policy accepts the address.
pub open spec fn policy_matches(p: PatternPolicy, a: Seq<char>) -> bool {
    match p {
        PatternPolicy::ExactBoth(n) => starts_and_ends_with(a, n@),
        PatternPolicy::WildcardCorners4Same => a.len() >= 8 && same4(a, 0) && same4(
            a,
            a.len() - 4,
        ),
        PatternPolicy::WildcardCorners4AABB => a.len() >= 8 && aabb4(a, 0) && aabb4(
            a,
            a.len() - 4,
        ),
        PatternPolicy::WildcardCorners4ABAB => a.len() >= 8 && abab4(a, 0) && abab4(
            a,
            a.len() - 4,
        ),
        PatternPolicy::WildcardContainsBoth(n) => starts_and_ends_with(a, n@),
    }
}

/// `text` is exactly the four chars of `body`.
fn equals_body(text: &Vec<char>, body: [char; 4]) -> (r: bool)
    ensures
        r == (text@ == body@),
{
    if text.len() != 4 {
        return false;
    }
    let r = text[0] == body[0] && text[1] == body[1] && text[2] == body[2] && text[3] == body[3];
    if r {
        assert(text@ =~= body@);
    }
    r
}

/// `a` begins with `n` and ends with `n`, compared char by char.
fn starts_and_ends(a: &Vec<char>, n: &Vec<char>) -> (r: bool)
    ensures
        r == starts_and_ends_with(a@, n@),
{
    if n.len() > a.len() {
        return false;
    }
    let off = a.len() - n.len();
    let mut i: usize = 0;
    while i < n.len()
        invariant
            n@.len() <= a@.len(),
            off == a@.len() - n@.len(),
            a@.len() == a.len(),
            n@.len() == n.len(),
            i <= n@.len(),
            forall|j: int| 0 <= j < i ==> a@[j] == n@[j] && a@[off + j] == n@[j],
        decreases n@.len() - i,
    {
        if a[i] != n[i] || a[off + i] != n[i] {
            assert(a@.subrange(0, n@.len() as int)[i as int] == a@[i as int]);
            assert(a@.subrange(off as int, a@.len() as int)[i as int] == a@[off + i]);
            return false;
        }
        i = i + 1;
    }
    assert(a@.subrange(0, n@.len() as int) =~= n@);
    assert(a@.subrange(off as int, a@.len() as int) =~= n@);
    true
}

impl PatternPolicy {
    /// Picks the policy for text that is already lower-cased: the body of a
    /// wildcard pattern when `wildcard` holds, the whole pattern otherwise.
    pub fn from_lowered(wildcard: bool, text: &str) -> (r: PatternPolicy)
        ensures
            policy_for_lowered(wildcard, text@, r),
    {
        if wildcard {
            let cs = chars_of(text);
            if equals_body(&cs, ['a', 'a', 'a', 'a']) {
                assert(text@ == body_same());
                return PatternPolicy::WildcardCorners4Same;
            }
            if equals_body(&cs, ['a', 'a', 'b', 'b']) {
                assert(text@ == body_aabb());
                return PatternPolicy::WildcardCorners4AABB;
            }
            if equals_body(&cs, ['a', 'b', 'a', 'b']) {
                assert(text@ == body_abab());
                return PatternPolicy::WildcardCorners4ABAB;
            }
            assert(['a', 'a', 'a', 'a']@ =~= body_same());
            assert(['a', 'a', 'b', 'b']@ =~= body_aabb());
            assert(['a', 'b', 'a', 'b']@ =~= body_abab());
            PatternPolicy::WildcardContainsBoth(to_checksum_address(text))
        } else {
            PatternPolicy::ExactBoth(to_checksum_address(text))
        }
    }

    /// Compiles a raw pattern. `*body*` (longer than two chars) is wildcard
    /// mode on the lower-cased body; anything else is exact mode on the
    /// lower-cased whole pattern. Every string compiles.
    pub fn compile(raw: &str) -> (r: PatternPolicy)
        ensures
            compiles_to(raw@, r),
            is_ascii_chars(raw@) ==> compiles_ascii_to(raw@, r),
    {
        let cs = chars_of(raw);
        let n = cs.len();
        if n > 2 && cs[0] == '*' && cs[n - 1] == '*' {
            let body = string_of(vstd::slice::slice_subrange(cs.as_slice(), 1, n - 1));
            assert(is_ascii_chars(raw@) ==> is_ascii_chars(body@)) by {
                if is_ascii_chars(raw@) {
                    assert forall|i: int| 0 <= i < body@.len() implies '\0' <= #[trigger] body@[i]
                        <= '\u{7f}' by {
                        assert(body@[i] == raw@[i + 1]);
                    }
                }
            }
            let lowered = lowercase(body.as_str());
            PatternPolicy::from_lowered(true, lowered.as_str())
        } else {
            let lowered = lowercase(raw);
            PatternPolicy::from_lowered(false, lowered.as_str())
        }
    }

    /// Whether the checksummed address (without `0x`) satisfies the policy.
    pub fn matches(&self, address: &str) -> (r: bool)
        ensures
            r == policy_matches(*self, address@),
    {
        let a = chars_of(address);
        let n = a.len();
        match self {
            PatternPolicy::ExactBoth(needle) => starts_and_ends(&a, &chars_of(needle.as_str())),
            PatternPolicy::WildcardContainsBoth(needle) => starts_and_ends(
                &a,
                &chars_of(needle.as_str()),
            ),
            PatternPolicy::WildcardCorners4Same => {
                n >= 8 && a[0] == a[1] && a[1] == a[2] && a[2] == a[3] && a[n - 4] == a[n - 3]
                    && a[n - 3] == a[n - 2] && a[n - 2] == a[n - 1]
            },
            PatternPolicy::WildcardCorners4AABB => {
                n >= 8 && a[0] == a[1] && a[2] == a[3] && a[0] != a[2] && a[n - 4] == a[n - 3]
                    && a[n - 2] == a[n - 1] && a[n - 4] != a[n - 2]
            },
            PatternPolicy::WildcardCorners4ABAB => {
                n >= 8 && a[0] == a[2] && a[1] == a[3] && a[0] != a[1] && a[n - 4] == a[n - 2]
                    && a[n - 3] == a[n - 1] && a[n - 4] != a[n - 3]
            },
        }
    }
}

} // verus!
