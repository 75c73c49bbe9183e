//! The search controller: derivation of a candidate address from a secret,
//! and the per-iteration state machine of a search. The loop that drives it
//! (cancellation checks, persistence, progress delivery) belongs to the
//! caller: each iteration it checks the cancellation flag, calls `finish` if
//! the flag is set and `step` otherwise, then acts on the returned report.

use vstd::prelude::*;

use crate::checksum::{checksum_of, to_checksum_address};
use crate::pattern::{aabb4, policy_matches, same4, PatternPolicy};
use crate::primitives::{
    hex_encode, hex_of, is_valid_secret, keccak256, keccak_of, public_point_of, push_char,
    random_bytes32, uncompressed_public_key,
};
use crate::text::{chars_of, push_all};

verus! {

/// A matched wallet.
#[derive(Debug, Clone)]
pub struct Wallet {
    /// Checksummed address with its `0x` prefix.
    pub address: String,
    /// Lowercase hex of the 32-byte secret key.
    pub private_key: String,
    /// The attempt count at the time of the match.
    pub attempts: u64,
    /// Milliseconds since the search started.
    pub duration: u64,
}

/// A progress snapshot of a running search.
#[derive(Debug, Clone)]
pub struct ProgressStats {
    pub attempts: u64,
    pub matches: u64,
    /// Milliseconds since the search started.
    pub duration: u64,
}

/// Why a search returned without a wallet.
#[derive(Debug, Clone, Copy, PartialEq, Eq)]
pub enum SearchError {
    /// Cancelled before any candidate matched.
    CancelledWithoutMatch,
}

impl SearchError {
    /// The message reported to the user.
    pub fn message(&self) -> (r: String)
        ensures
            r@ == cancelled_text(),
    {
        let mut s = String::new();
        push_all(
            &mut s,
            &[
                'n', 'o', ' ', 'm', 'a', 't', 'c', 'h', 'i', 'n', 'g', ' ', 'w', 'a', 'l', 'l', 'e',
                't', ' ', 'f', 'o', 'u', 'n', 'd', ' ', 'b', 'e', 'f', 'o', 'r', 'e', ' ', 'c', 'a',
                'n', 'c', 'e', 'l',
            ],
        );
        assert(s@ =~= cancelled_text());
        s
    }
}

/// The message of a search cancelled without a match.
pub open spec fn cancelled_text() -> Seq<char> {
    seq![
        'n', 'o', ' ', 'm', 'a', 't', 'c', 'h', 'i', 'n', 'g', ' ', 'w', 'a', 'l', 'l', 'e', 't',
        ' ', 'f', 'o', 'u', 'n', 'd', ' ', 'b', 'e', 'f', 'o', 'r', 'e', ' ', 'c', 'a', 'n', 'c',
        'e', 'l',
    ]
}

/// The lowercase hex address of a valid secret: the last 20 bytes of the
/// Keccak-256 digest of the public point without its format byte.
pub open spec fn lower_address_of(secret: Seq<u8>) -> Seq<char> {
    hex_of(keccak_of(public_point_of(secret).drop_first()).subrange(12, 32))
}

/// The checksummed address of a valid secret, without `0x`.
pub open spec fn address_of(secret: Seq<u8>) -> Seq<char> {
    checksum_of(lower_address_of(secret))
}

/// The secret yields an address that the policy accepts.
pub open spec fn is_hit(policy: PatternPolicy, secret: Seq<u8>) -> bool {
    is_valid_secret(secret) && policy_matches(policy, address_of(secret))
}

/// The checksummed address (without `0x`) of the secret, or `None` when the
/// bytes are not a valid secp256k1 secret scalar.
pub fn derive_address(secret: &[u8; 32]) -> (r: Option<String>)
    ensures
        r is Some <==> is_valid_secret(secret@),
        r is Some ==> r->0@ == address_of(secret@),
        r is Some ==> r->0@.len() == 40,
{
    match uncompressed_public_key(secret) {
        None => None,
        Some(point) => {
            let xy = vstd::slice::slice_subrange(point.as_slice(), 1, 65);
            assert(xy@ =~= public_point_of(secret@).drop_first());
            let hash = keccak256(xy);
            let tail = vstd::slice::slice_subrange(hash.as_slice(), 12, 32);
            let lower = hex_encode(tail);
            Some(to_checksum_address(lower.as_str()))
        },
    }
}

/// The counters and latest match of one search.
pub struct SearchState {
    pub attempts: u64,
    pub matches: u64,
    pub last_match: Option<Wallet>,
}

/// What the caller does after an iteration: persist `last_match` when
/// `matched`, and deliver `progress` when present.
pub struct StepReport {
    pub matched: bool,
    pub progress: Option<ProgressStats>,
}

/// One iteration moves `pre` to `post`: one more attempt, one more match
/// exactly when the candidate hit, and the latest match kept otherwise.
pub open spec fn advanced(pre: SearchState, post: SearchState, hit: bool) -> bool {
    &&& post.attempts == pre.attempts + 1
    &&& post.matches == pre.matches + (if hit { 1int } else { 0int })
    &&& hit ==> post.last_match is Some
    &&& !hit ==> post.last_match == pre.last_match
}

/// What a cancelled search returns from a state.
pub open spec fn outcome(s: SearchState) -> Result<Wallet, SearchError> {
    match s.last_match {
        Some(w) => Ok(w),
        None => Err(SearchError::CancelledWithoutMatch),
    }
}

/// The wallet recorded for a hit on `secret` at attempt `attempts`.
pub open spec fn wallet_for(w: Wallet, secret: Seq<u8>, attempts: u64, elapsed_ms: u64) -> bool {
    &&& w.address@ == seq!['0', 'x'] + address_of(secret)
    &&& w.private_key@ == hex_of(secret)
    &&& w.attempts == attempts
    &&& w.duration == elapsed_ms
}

/// One iteration on `secret` at `elapsed_ms` moved `pre` to `post` and
/// reported `r`: the counters advance, a hit records its wallet, and
/// progress is reported on every hit and on every thousandth attempt whose
/// bytes were a valid secret (an invalid draw skips the rest of the
/// iteration).
pub open spec fn stepped(
    pre: SearchState,
    post: SearchState,
    policy: PatternPolicy,
    secret: Seq<u8>,
    elapsed_ms: u64,
    r: StepReport,
) -> bool {
    &&& advanced(pre, post, is_hit(policy, secret))
    &&& r.matched == is_hit(policy, secret)
    &&& r.matched ==> wallet_for(post.last_match->0, secret, post.attempts, elapsed_ms)
    &&& r.progress is Some <==> ((is_valid_secret(secret) && post.attempts % 1000 == 0)
        || r.matched)
    &&& r.progress is Some ==> r.progress->0.attempts == post.attempts && r.progress->0.matches
        == post.matches && r.progress->0.duration == elapsed_ms
}

impl SearchState {
    /// Matches never outnumber attempts.
    pub open spec fn wf(&self) -> bool {
        self.matches <= self.attempts
    }

    /// A search before its first iteration.
    pub fn new() -> (r: SearchState)
        ensures
            r.attempts == 0,
            r.matches == 0,
            r.last_match is None,
            r.wf(),
    {
        SearchState { attempts: 0, matches: 0, last_match: None }
    }

    /// The result of a search cancelled in this state: the latest match, or
    /// the cancelled-without-match error.
    pub fn finish(self) -> (r: Result<Wallet, SearchError>)
        ensures
            r == outcome(self),
    {
        match self.last_match {
            Some(w) => Ok(w),
            None => Err(SearchError::CancelledWithoutMatch),
        }
    }

    /// One iteration on the given secret bytes, at `elapsed_ms` since the
    /// start. Invalid secrets count as an attempt and never match.
    pub fn step_with(&mut self, policy: &PatternPolicy, secret: &[u8; 32], elapsed_ms: u64) -> (r:
        StepReport)
        requires
            old(self).wf(),
            old(self).attempts < u64::MAX,
        ensures
            final(self).wf(),
            stepped(*old(self), *final(self), *policy, secret@, elapsed_ms, r),
    {
        self.attempts = self.attempts + 1;
        let mut matched = false;
        match derive_address(secret) {
            None => {
                return StepReport { matched: false, progress: None };
            },
            Some(address) => {
                if policy.matches(address.as_str()) {
                    matched = true;
                    self.matches = self.matches + 1;
                    let mut shown = String::new();
                    push_char(&mut shown, '0');
                    push_char(&mut shown, 'x');
                    let cs = chars_of(address.as_str());
                    push_all(&mut shown, cs.as_slice());
                    assert(shown@ =~= seq!['0', 'x'] + address_of(secret@));
                    let wallet = Wallet {
                        address: shown,
                        private_key: hex_encode(secret),
                        attempts: self.attempts,
                        duration: elapsed_ms,
                    };
                    self.last_match = Some(wallet);
                }
            },
        }
        let progress = if self.attempts % 1000 == 0 || matched {
            Some(
                ProgressStats {
                    attempts: self.attempts,
                    matches: self.matches,
                    duration: elapsed_ms,
                },
            )
        } else {
            None
        };
        StepReport { matched, progress }
    }

    /// One iteration on fresh random bytes from the operating system; the
    /// report and the new state are those of `step_with` on whatever bytes
    /// were drawn.
    pub fn step(&mut self, policy: &PatternPolicy, elapsed_ms: u64) -> (r: StepReport)
        requires
            old(self).wf(),
            old(self).attempts < u64::MAX,
        ensures
            final(self).wf(),
            exists|secret: Seq<u8>|
                secret.len() == 32 && #[trigger] stepped(
                    *old(self),
                    *final(self),
                    *policy,
                    secret,
                    elapsed_ms,
                    r,
                ),
    {
        let secret = random_bytes32();
        self.step_with(policy, &secret, elapsed_ms)
    }
}

/// How many of the flags are set.
pub open spec fn count_hits(hits: Seq<bool>) -> nat
    decreases hits.len(),
{
    if hits.len() == 0 {
        0
    } else {
        count_hits(hits.drop_last()) + (if hits.last() { 1nat } else { 0nat })
    }
}

/// A run of iterations: `states[k + 1]` follows `states[k]` with hit flag `hits[k]`.
pub open spec fn is_run(states: Seq<SearchState>, hits: Seq<bool>) -> bool {
    &&& states.len() == hits.len() + 1
    &&& forall|k: int| 0 <= k < hits.len() ==> advanced(#[trigger] states[k], states[k + 1], hits[k])
}

/// Over a run of N advances, attempts grow by exactly N and matches by
/// exactly the number of hits.
proof fn lemma_run_counts(states: Seq<SearchState>, hits: Seq<bool>)
    requires
        is_run(states, hits),
    ensures
        states.last().attempts == states[0].attempts + hits.len(),
        states.last().matches == states[0].matches + count_hits(hits),
    decreases hits.len(),
{
    if hits.len() > 0 {
        let n = hits.len() - 1;
        assert(is_run(states.drop_last(), hits.drop_last())) by {
            assert forall|k: int| 0 <= k < hits.drop_last().len() implies advanced(
                #[trigger] states.drop_last()[k],
                states.drop_last()[k + 1],
                hits.drop_last()[k],
            ) by {
                assert(advanced(states[k], states[k + 1], hits[k]));
            }
        }
        lemma_run_counts(states.drop_last(), hits.drop_last());
        assert(advanced(states[n], states[n + 1], hits[n]));
    }
}

/// The index of the last hit of the run, if any.
pub open spec fn last_hit(hits: Seq<bool>) -> Option<int>
    decreases hits.len(),
{
    if hits.len() == 0 {
        None
    } else if hits.last() {
        Some(hits.len() - 1)
    } else {
        last_hit(hits.drop_last())
    }
}

/// A run of advances with no hit keeps the starting latest match; one with
/// hits ends with the match recorded at its last hit.
proof fn lemma_run_outcome(states: Seq<SearchState>, hits: Seq<bool>)
    requires
        is_run(states, hits),
    ensures
        last_hit(hits) is None ==> states.last().last_match == states[0].last_match,
        last_hit(hits) is None && states[0].last_match is None ==> outcome(states.last())
            == Err::<Wallet, SearchError>(SearchError::CancelledWithoutMatch),
        last_hit(hits) is Some ==> {
            let k = last_hit(hits)->0;
            &&& 0 <= k < hits.len()
            &&& hits[k]
            &&& states[k + 1].last_match is Some
            &&& outcome(states.last()) == Ok::<Wallet, SearchError>(states[k + 1].last_match->0)
        },
    decreases hits.len(),
{
    if hits.len() > 0 {
        let n = hits.len() - 1;
        assert(advanced(states[n], states[n + 1], hits[n]));
        if !hits.last() {
            assert(is_run(states.drop_last(), hits.drop_last())) by {
                assert forall|k: int| 0 <= k < hits.drop_last().len() implies advanced(
                    #[trigger] states.drop_last()[k],
                    states.drop_last()[k + 1],
                    hits.drop_last()[k],
                ) by {
                    assert(advanced(states[k], states[k + 1], hits[k]));
                }
            }
            lemma_run_outcome(states.drop_last(), hits.drop_last());
        }
    }
}

/// A search of N iterations: iteration `k` ran `step_with` on `secrets[k]`
/// at `elapsed[k]`, moving `states[k]` to `states[k + 1]` and reporting
/// `reports[k]`.
pub open spec fn is_search(
    states: Seq<SearchState>,
    policy: PatternPolicy,
    secrets: Seq<Seq<u8>>,
    elapsed: Seq<u64>,
    reports: Seq<StepReport>,
) -> bool {
    &&& states.len() == secrets.len() + 1
    &&& elapsed.len() == secrets.len()
    &&& reports.len() == secrets.len()
    &&& forall|k: int|
        0 <= k < secrets.len() ==> stepped(
            #[trigger] states[k],
            states[k + 1],
            policy,
            secrets[k],
            elapsed[k],
            reports[k],
        )
}

/// Which iterations of a search hit.
pub open spec fn hits_of(policy: PatternPolicy, secrets: Seq<Seq<u8>>) -> Seq<bool> {
    Seq::new(secrets.len(), |k: int| is_hit(policy, secrets[k]))
}

proof fn lemma_search_is_run(
    states: Seq<SearchState>,
    policy: PatternPolicy,
    secrets: Seq<Seq<u8>>,
    elapsed: Seq<u64>,
    reports: Seq<StepReport>,
)
    requires
        is_search(states, policy, secrets, elapsed, reports),
    ensures
        is_run(states, hits_of(policy, secrets)),
{
    assert forall|k: int| 0 <= k < secrets.len() implies advanced(
        #[trigger] states[k],
        states[k + 1],
        hits_of(policy, secrets)[k],
    ) by {
        assert(stepped(states[k], states[k + 1], policy, secrets[k], elapsed[k], reports[k]));
    }
}

/// Counting: after N iterations of a search, invalid draws included,
/// attempts have grown by exactly N and matches by exactly the number of
/// hits. Iteration `k` ends at attempt number start + k + 1, and every
/// progress snapshot carries that attempt number and the match count so far.
/// So a new search with no hit in N iterations has attempts == N and
/// matches == 0, and each of its snapshots reports no match.
pub proof fn lemma_search_counts(
    states: Seq<SearchState>,
    policy: PatternPolicy,
    secrets: Seq<Seq<u8>>,
    elapsed: Seq<u64>,
    reports: Seq<StepReport>,
)
    requires
        is_search(states, policy, secrets, elapsed, reports),
    ensures
        states.last().attempts == states[0].attempts + secrets.len(),
        states.last().matches == states[0].matches + count_hits(hits_of(policy, secrets)),
        forall|k: int|
            0 <= k < secrets.len() ==> (#[trigger] states[k + 1]).attempts == states[0].attempts
                + k + 1,
        forall|k: int|
            0 <= k < secrets.len() && (#[trigger] reports[k]).progress is Some ==> {
                &&& reports[k].progress->0.attempts == states[0].attempts + k + 1
                &&& reports[k].progress->0.matches == states[k + 1].matches
            },
        states[0].attempts == 0 && states[0].matches == 0 && count_hits(hits_of(policy, secrets))
            == 0 ==> states.last().attempts == secrets.len() && states.last().matches == 0,
{
    lemma_search_is_run(states, policy, secrets, elapsed, reports);
    lemma_run_counts(states, hits_of(policy, secrets));
    assert forall|k: int| 0 <= k < secrets.len() implies (#[trigger] states[k + 1]).attempts
        == states[0].attempts + k + 1 by {
        let sub = states.subrange(0, k + 2);
        let hs = hits_of(policy, secrets).subrange(0, k + 1);
        assert(is_run(sub, hs)) by {
            assert forall|j: int| 0 <= j < hs.len() implies advanced(
                #[trigger] sub[j],
                sub[j + 1],
                hs[j],
            ) by {
                assert(advanced(states[j], states[j + 1], hits_of(policy, secrets)[j]));
            }
        }
        lemma_run_counts(sub, hs);
    }
    assert forall|k: int|
        0 <= k < secrets.len() && (#[trigger] reports[k]).progress is Some implies {
        &&& reports[k].progress->0.attempts == states[0].attempts + k + 1
        &&& reports[k].progress->0.matches == states[k + 1].matches
    } by {
        assert(stepped(states[k], states[k + 1], policy, secrets[k], elapsed[k], reports[k]));
        assert(states[k + 1].attempts == states[0].attempts + k + 1);
    }
}

/// Cancellation: a new search cancelled after iterations with no hit
/// returns the cancelled-without-match error; one cancelled after hits
/// returns the wallet of its most recent hit, never an earlier one: the
/// address and key of that iteration's secret, its attempt number, and its
/// elapsed time.
pub proof fn lemma_search_outcome(
    states: Seq<SearchState>,
    policy: PatternPolicy,
    secrets: Seq<Seq<u8>>,
    elapsed: Seq<u64>,
    reports: Seq<StepReport>,
)
    requires
        is_search(states, policy, secrets, elapsed, reports),
    ensures
        last_hit(hits_of(policy, secrets)) is None && states[0].last_match is None ==> outcome(
            states.last(),
        ) == Err::<Wallet, SearchError>(SearchError::CancelledWithoutMatch),
        last_hit(hits_of(policy, secrets)) is Some ==> {
            let k = last_hit(hits_of(policy, secrets))->0;
            &&& 0 <= k < secrets.len()
            &&& is_hit(policy, secrets[k])
            &&& forall|j: int| k < j < secrets.len() ==> !is_hit(policy, #[trigger] secrets[j])
            &&& outcome(states.last()) is Ok
            &&& wallet_for(
                outcome(states.last())->Ok_0,
                secrets[k],
                (states[0].attempts + k + 1) as u64,
                elapsed[k],
            )
        },
{
    let hits = hits_of(policy, secrets);
    lemma_search_is_run(states, policy, secrets, elapsed, reports);
    lemma_run_outcome(states, hits);
    lemma_search_counts(states, policy, secrets, elapsed, reports);
    if last_hit(hits) is Some {
        let k = last_hit(hits)->0;
        lemma_last_hit_is_last(hits);
        assert(stepped(states[k], states[k + 1], policy, secrets[k], elapsed[k], reports[k]));
        assert(states[k + 1].attempts == states[0].attempts + k + 1);
        assert forall|j: int| k < j < secrets.len() implies !is_hit(policy, #[trigger] secrets[j]) by {
            assert(!hits[j]);
        }
    }
}

proof fn lemma_last_hit_is_last(hits: Seq<bool>)
    ensures
        last_hit(hits) is Some ==> {
            let k = last_hit(hits)->0;
            &&& 0 <= k < hits.len()
            &&& hits[k]
            &&& forall|j: int| k < j < hits.len() ==> !#[trigger] hits[j]
        },
        last_hit(hits) is None ==> forall|j: int| 0 <= j < hits.len() ==> !#[trigger] hits[j],
    decreases hits.len(),
{
    if hits.len() > 0 {
        lemma_last_hit_is_last(hits.drop_last());
        if !hits.last() {
            assert forall|j: int| 0 <= j < hits.len() - 1 implies hits[j] == hits.drop_last()[j] by {}
        }
    }
}

/// One iteration, hit or not: a hit adds exactly one match at the next
/// attempt number, records the wallet of its secret, and reports
/// (attempts, matches, elapsed) with the new counts; a miss leaves the match
/// count and the latest match as they were and is not reported as a match.
pub proof fn lemma_step_effect(
    pre: SearchState,
    post: SearchState,
    policy: PatternPolicy,
    secret: Seq<u8>,
    elapsed_ms: u64,
    r: StepReport,
)
    requires
        stepped(pre, post, policy, secret, elapsed_ms, r),
    ensures
        post.attempts == pre.attempts + 1,
        is_hit(policy, secret) ==> {
            &&& r.matched
            &&& post.matches == pre.matches + 1
            &&& post.last_match is Some
            &&& wallet_for(post.last_match->0, secret, post.attempts, elapsed_ms)
            &&& r.progress is Some
            &&& r.progress->0.attempts == post.attempts
            &&& r.progress->0.matches == pre.matches + 1
            &&& r.progress->0.duration == elapsed_ms
        },
        !is_hit(policy, secret) ==> {
            &&& !r.matched
            &&& post.matches == pre.matches
            &&& post.last_match == pre.last_match
            &&& (r.progress is Some ==> post.attempts % 1000 == 0)
        },
{
}

/// Under `WildcardCorners4Same`, a valid secret whose address starts with
/// one char four times and ends with one char four times is a hit, whether
/// or not the two chars are the same.
pub proof fn lemma_same_corners_hit(secret: Seq<u8>)
    requires
        is_valid_secret(secret),
        address_of(secret).len() >= 8,
        same4(address_of(secret), 0),
        same4(address_of(secret), address_of(secret).len() - 4),
    ensures
        is_hit(PatternPolicy::WildcardCorners4Same, secret),
{
}

/// Under `WildcardCorners4AABB` both ends must have the shape on their own:
/// an address whose last four chars are not `aabb`-shaped is no hit,
/// whatever its first four are.
pub proof fn lemma_aabb_needs_both_ends(secret: Seq<u8>)
    requires
        address_of(secret).len() >= 8,
        !aabb4(address_of(secret), address_of(secret).len() - 4),
    ensures
        !is_hit(PatternPolicy::WildcardCorners4AABB, secret),
{
}

} // verus!
