//! The text of a saved match: the file name of a session's records for one
//! pattern, the CSV header, and one record line.

use vstd::prelude::*;

use crate::primitives::push_char;
use crate::search::Wallet;
use crate::text::{chars_of, push_all, string_of};

verus! {

/// The pattern with every `*` taken out.
pub open spec fn remove_stars(s: Seq<char>) -> Seq<char>
    decreases s.len(),
{
    if s.len() == 0 {
        s
    } else if s.last() == '*' {
        remove_stars(s.drop_last())
    } else {
        remove_stars(s.drop_last()).push(s.last())
    }
}

/// `wallet_<pattern without stars>_<timestamp>.csv`.
pub open spec fn file_name_of(pattern: Seq<char>, timestamp: Seq<char>) -> Seq<char> {
    seq!['w', 'a', 'l', 'l', 'e', 't', '_'] + remove_stars(pattern) + seq!['_'] + timestamp
        + seq!['.', 'c', 's', 'v']
}

/// The header line of a records file.
pub open spec fn header_text() -> Seq<char> {
    seq![
        'a', 'd', 'd', 'r', 'e', 's', 's', ',', 'p', 'r', 'i', 'v', 'a', 't', 'e', '_', 'k', 'e',
        'y', ',', 'p', 'a', 't', 't', 'e', 'r', 'n',
    ]
}

/// `address,private_key,pattern` for one wallet.
pub open spec fn record_of(w: Wallet, pattern: Seq<char>) -> Seq<char> {
    w.address@ + seq![','] + w.private_key@ + seq![','] + pattern
}

/// The name of the file that holds a session's records for a pattern.
pub fn wallet_file_name(pattern: &str, timestamp: &str) -> (r: String)
    ensures
        r@ == file_name_of(pattern@, timestamp@),
{
    let mut out = string_of(&['w', 'a', 'l', 'l', 'e', 't', '_']);
    let cs = chars_of(pattern);
    let ghost start = out@;
    let mut i: usize = 0;
    while i < cs.len()
        invariant
            i <= cs@.len(),
            cs@ == pattern@,
            out@ == start + remove_stars(cs@.subrange(0, i as int)),
        decreases cs@.len() - i,
    {
        assert(cs@.subrange(0, i + 1).drop_last() =~= cs@.subrange(0, i as int));
        if cs[i] != '*' {
            push_char(&mut out, cs[i]);
            assert(out@ =~= start + remove_stars(cs@.subrange(0, i + 1)));
        }
        i = i + 1;
    }
    assert(cs@.subrange(0, cs@.len() as int) =~= cs@);
    push_char(&mut out, '_');
    let ts = chars_of(timestamp);
    push_all(&mut out, ts.as_slice());
    push_all(&mut out, &['.', 'c', 's', 'v']);
    assert(out@ =~= file_name_of(pattern@, timestamp@));
    out
}

/// The header line written once at the top of a new records file.
pub fn csv_header() -> (r: String)
    ensures
        r@ == header_text(),
{
    let r = string_of(
        &[
            'a', 'd', 'd', 'r', 'e', 's', 's', ',', 'p', 'r', 'i', 'v', 'a', 't', 'e', '_', 'k', 'e',
            'y', ',', 'p', 'a', 't', 't', 'e', 'r', 'n',
        ],
    );
    assert(r@ =~= header_text());
    r
}

/// The record line of a matched wallet found for a pattern.
pub fn wallet_record_line(wallet: &Wallet, pattern: &str) -> (r: String)
    ensures
        r@ == record_of(*wallet, pattern@),
{
    let mut out = string_of(chars_of(wallet.address.as_str()).as_slice());
    push_char(&mut out, ',');
    push_all(&mut out, chars_of(wallet.private_key.as_str()).as_slice());
    push_char(&mut out, ',');
    push_all(&mut out, chars_of(pattern).as_slice());
    assert(out@ =~= record_of(*wallet, pattern@));
    out
}

} // verus!
