use vanity_wallet::{
    cancel_generation, csv_header, derive_address, get_cancel_flag, reset_cancel_flag,
    to_checksum_address, wallet_file_name, wallet_record_line, CancelRegistry, PatternPolicy,
    SearchError, SearchState, Wallet,
};
use std::sync::atomic::Ordering;

fn secret_one() -> [u8; 32] {
    let mut s = [0u8; 32];
    s[31] = 1;
    s
}

#[test]
fn checksum_known_vector() {
    assert_eq!(
        to_checksum_address("5aaeb6053f3e94c9b9a09f33669435e7ef1beaed"),
        "5aAeb6053F3E94C9b9A09f33669435E7Ef1BeAed"
    );
}

#[test]
fn checksum_more_vectors() {
    assert_eq!(
        to_checksum_address("fb6916095ca1df60bb79ce92ce3ea74c37c5d359"),
        "fB6916095ca1df60bB79Ce92cE3Ea74c37c5d359"
    );
    assert_eq!(
        to_checksum_address("dbf03b407c01e7cd3cbea99509d93f8dddc8c6fb"),
        "dbF03B407c01E7cD3CBea99509d93f8DDDC8C6FB"
    );
    assert_eq!(to_checksum_address(""), "");
}

#[test]
fn checksum_reencoding_is_stable() {
    let addrs = [
        "5aaeb6053f3e94c9b9a09f33669435e7ef1beaed",
        "52908400098527886e0f7030069857d2e4169ee7",
        "de709f2102306220921060314715629080e2fb77",
    ];
    for a in addrs {
        let once = to_checksum_address(a);
        let twice = to_checksum_address(&once.to_lowercase());
        assert_eq!(once, twice);
        assert_eq!(to_checksum_address(a), once);
    }
}

#[test]
fn checksum_changes_only_letter_case() {
    let a = "de709f2102306220921060314715629080e2fb77";
    let out = to_checksum_address(a);
    assert_eq!(out.len(), 40);
    for (i, o) in a.chars().zip(out.chars()) {
        if i.is_ascii_digit() {
            assert_eq!(i, o);
        } else {
            assert!(o == i || o == i.to_ascii_uppercase());
        }
    }
}

#[test]
fn compile_selects_policies() {
    assert_eq!(PatternPolicy::compile("*aaaa*"), PatternPolicy::WildcardCorners4Same);
    assert_eq!(PatternPolicy::compile("*aabb*"), PatternPolicy::WildcardCorners4AABB);
    assert_eq!(PatternPolicy::compile("*abab*"), PatternPolicy::WildcardCorners4ABAB);
    assert_eq!(
        PatternPolicy::compile("*abc*"),
        PatternPolicy::WildcardContainsBoth(to_checksum_address("abc"))
    );
    assert_eq!(
        PatternPolicy::compile("dead"),
        PatternPolicy::ExactBoth(to_checksum_address("dead"))
    );
}

#[test]
fn compile_lowercases_first() {
    assert_eq!(PatternPolicy::compile("*AABB*"), PatternPolicy::WildcardCorners4AABB);
    assert_eq!(
        PatternPolicy::compile("DEAD"),
        PatternPolicy::ExactBoth(to_checksum_address("dead"))
    );
    assert_eq!(PatternPolicy::compile("**"), PatternPolicy::ExactBoth(to_checksum_address("**")));
    assert_eq!(PatternPolicy::compile(""), PatternPolicy::ExactBoth(String::new()));
}

#[test]
fn from_lowered_exact_and_wildcard() {
    assert_eq!(PatternPolicy::from_lowered(true, "abab"), PatternPolicy::WildcardCorners4ABAB);
    assert_eq!(
        PatternPolicy::from_lowered(false, "aaaa"),
        PatternPolicy::ExactBoth(to_checksum_address("aaaa"))
    );
}

#[test]
fn same_corners_may_differ() {
    let p = PatternPolicy::WildcardCorners4Same;
    assert!(p.matches("AAAA12345678901234567890123456785678BBBB"));
    assert!(p.matches("7777123456789012345678901234567856787777"));
    assert!(!p.matches("AAAb12345678901234567890123456785678BBBB"));
    assert!(!p.matches("AAAA"));
}

#[test]
fn aabb_needs_both_ends() {
    let p = PatternPolicy::WildcardCorners4AABB;
    assert!(p.matches("AABB1234567890123456789012345678901233cc"));
    assert!(!p.matches("AABB123456789012345678901234567890123abab"));
    assert!(!p.matches("AAAA1234567890123456789012345678901233cc"));
    assert!(!p.matches("AABB"));
}

#[test]
fn abab_needs_both_ends() {
    let p = PatternPolicy::WildcardCorners4ABAB;
    assert!(p.matches("ABAB12345678901234567890123456789012cdcd"));
    assert!(!p.matches("ABAB12345678901234567890123456789012ccdd"));
    assert!(!p.matches("AAAA12345678901234567890123456789012cdcd"));
}

#[test]
fn exact_both_is_case_sensitive() {
    let n = to_checksum_address("dead");
    let p = PatternPolicy::ExactBoth(n.clone());
    let middle = "1".repeat(32);
    assert!(p.matches(&format!("{}{}{}", n, middle, n)));
    assert!(!p.matches(&format!("{}{}beef", n, middle)));
    let other = if n == n.to_uppercase() { n.to_lowercase() } else { n.to_uppercase() };
    assert!(!p.matches(&format!("{}{}{}", other, middle, other)));
    assert!(!p.matches(&format!("{}{}{}", n, middle, other)));
    let q = PatternPolicy::ExactBoth("DEAD".to_string());
    assert!(q.matches("DEAD00000000000000000000000000000000DEAD"));
    assert!(!q.matches("DEAD00000000000000000000000000000000BEEF"));
    assert!(!q.matches("dead00000000000000000000000000000000DEAD"));
}

#[test]
fn contains_both_matches_ends() {
    let p = PatternPolicy::WildcardContainsBoth("abc".to_string());
    assert!(p.matches("abc1234abc"));
    assert!(!p.matches("abc1234abd"));
    assert!(!p.matches("ab"));
}

#[test]
fn derive_address_of_secret_one() {
    assert_eq!(
        derive_address(&secret_one()),
        Some("7E5F4552091A69125d5DfCb7b8C2659029395Bdf".to_string())
    );
}

#[test]
fn derive_rejects_invalid_scalars() {
    assert_eq!(derive_address(&[0u8; 32]), None);
    assert_eq!(derive_address(&[0xffu8; 32]), None);
    let order: [u8; 32] = [
        0xFF, 0xFF, 0xFF, 0xFF, 0xFF, 0xFF, 0xFF, 0xFF, 0xFF, 0xFF, 0xFF, 0xFF, 0xFF, 0xFF, 0xFF,
        0xFE, 0xBA, 0xAE, 0xDC, 0xE6, 0xAF, 0x48, 0xA0, 0x3B, 0xBF, 0xD2, 0x5E, 0x8C, 0xD0, 0x36,
        0x41, 0x41,
    ];
    assert_eq!(derive_address(&order), None);
    let mut below = order;
    below[31] = 0x40;
    assert!(derive_address(&below).is_some());
}

#[test]
fn cancel_before_first_iteration() {
    let s = SearchState::new();
    assert_eq!(s.attempts, 0);
    assert!(matches!(s.finish(), Err(SearchError::CancelledWithoutMatch)));
    assert_eq!(
        SearchError::CancelledWithoutMatch.message(),
        "no matching wallet found before cancel"
    );
}

#[test]
fn counting_without_matches() {
    let policy = PatternPolicy::compile("dead");
    let mut s = SearchState::new();
    let valid = secret_one();
    for i in 1..=2500u64 {
        let r = s.step_with(&policy, &valid, 7);
        assert!(!r.matched);
        assert_eq!(s.attempts, i);
        assert_eq!(s.matches, 0);
        match r.progress {
            Some(p) => {
                assert_eq!(i % 1000, 0);
                assert_eq!(p.attempts, i);
                assert_eq!(p.matches, 0);
                assert_eq!(p.duration, 7);
            }
            None => assert_ne!(i % 1000, 0),
        }
    }
    assert!(s.last_match.is_none());
}

#[test]
fn invalid_draws_count_but_report_nothing() {
    let every = PatternPolicy::compile("");
    let mut s = SearchState::new();
    for i in 1..=1000u64 {
        let r = s.step_with(&every, &[0u8; 32], 3);
        assert!(!r.matched);
        assert!(r.progress.is_none());
        assert_eq!(s.attempts, i);
    }
    assert_eq!(s.matches, 0);
    assert!(matches!(s.finish(), Err(SearchError::CancelledWithoutMatch)));
}

#[test]
fn match_is_recorded_and_search_goes_on() {
    let every = PatternPolicy::compile("");
    let mut s = SearchState::new();
    let r = s.step_with(&every, &[0u8; 32], 1);
    assert!(!r.matched);
    let r = s.step_with(&every, &secret_one(), 5);
    assert!(r.matched);
    let p = r.progress.expect("a match reports progress");
    assert_eq!((p.attempts, p.matches, p.duration), (2, 1, 5));
    let mut two = [0u8; 32];
    two[31] = 2;
    let r = s.step_with(&every, &two, 9);
    assert!(r.matched);
    assert_eq!((s.attempts, s.matches), (3, 2));
    let w: Wallet = s.finish().expect("a match was found");
    assert_eq!(w.attempts, 3);
    assert_eq!(w.duration, 9);
    assert_eq!(w.address, format!("0x{}", derive_address(&two).unwrap()));
    assert_eq!(
        w.private_key,
        "0000000000000000000000000000000000000000000000000000000000000002"
    );
}

#[test]
fn wallet_fields_for_secret_one() {
    let every = PatternPolicy::compile("");
    let mut s = SearchState::new();
    s.step_with(&every, &secret_one(), 0);
    let w = s.last_match.as_ref().unwrap();
    assert_eq!(w.address, "0x7E5F4552091A69125d5DfCb7b8C2659029395Bdf");
    assert_eq!(
        w.private_key,
        "0000000000000000000000000000000000000000000000000000000000000001"
    );
    assert_eq!(w.attempts, 1);
}

#[test]
fn random_step_counts_an_attempt() {
    let policy = PatternPolicy::compile("*aaaa*");
    let mut s = SearchState::new();
    for _ in 0..20 {
        s.step(&policy, 0);
    }
    assert_eq!(s.attempts, 20);
    assert!(s.matches <= 20);
}

#[test]
fn record_text() {
    assert_eq!(
        wallet_file_name("*abc*", "20240101_120000"),
        "wallet_abc_20240101_120000.csv"
    );
    assert_eq!(wallet_file_name("dead", "t"), "wallet_dead_t.csv");
    assert_eq!(csv_header(), "address,private_key,pattern");
    let w = Wallet {
        address: "0xAB".to_string(),
        private_key: "01".to_string(),
        attempts: 3,
        duration: 4,
    };
    assert_eq!(wallet_record_line(&w, "*ab*"), "0xAB,01,*ab*");
}

#[test]
fn cancel_flag_lifecycle() {
    let mut reg = CancelRegistry::new();
    cancel_generation(&reg);
    let flag = get_cancel_flag(&mut reg);
    assert!(!flag.load(Ordering::SeqCst));
    cancel_generation(&reg);
    assert!(flag.load(Ordering::SeqCst));
    let again = get_cancel_flag(&mut reg);
    assert!(std::sync::Arc::ptr_eq(&flag, &again));
    assert!(again.load(Ordering::SeqCst));
    reset_cancel_flag(&reg);
    assert!(!flag.load(Ordering::SeqCst));
}
