use warframe_api_helper::pattern::PatternMatcher;
use warframe_api_helper::types::Match;

fn m(s: &str) -> Match {
    Match::from_process_memory(s.to_string(), 0, "r".to_string(), vec![])
}

#[test]
fn extracts_account_id_and_nonce() {
    let (a, n) = PatternMatcher::extract_account_id_and_nonce(
        "?accountId=0123456789abcdef01234567&nonce=9876543210",
    );
    assert_eq!(a.as_deref(), Some("0123456789abcdef01234567"));
    assert_eq!(n.as_deref(), Some("9876543210"));
}

#[test]
fn short_account_id_is_not_extracted() {
    let (a, n) = PatternMatcher::extract_account_id_and_nonce("?accountId=0123abc&nonce=42");
    assert_eq!(a, None);
    assert_eq!(n.as_deref(), Some("42"));
}

#[test]
fn nonce_stops_at_first_non_digit() {
    let (_, n) = PatternMatcher::extract_account_id_and_nonce("&nonce=12ab34");
    assert_eq!(n.as_deref(), Some("12"));
}

#[test]
fn has_both_patterns_needs_both() {
    assert!(PatternMatcher::has_both_patterns("x?accountId=1&nonce=2"));
    assert!(!PatternMatcher::has_both_patterns("?accountId=1"));
    assert!(!PatternMatcher::has_both_patterns("&nonce=2"));
    assert!(!PatternMatcher::has_both_patterns(""));
}

#[test]
fn best_match_takes_first_complete() {
    let ms = vec![
        m("?accountId=0123&nonce=1"),
        m("?accountId=aaaaaaaaaaaaaaaaaaaaaaaa"),
        m("?accountId=bbbbbbbbbbbbbbbbbbbbbbbb&nonce=22"),
        m("?accountId=cccccccccccccccccccccccc&nonce=33"),
    ];
    let (a, n) = PatternMatcher::find_best_match(&ms);
    assert_eq!(a.as_deref(), Some("bbbbbbbbbbbbbbbbbbbbbbbb"));
    assert_eq!(n.as_deref(), Some("22"));
}

#[test]
fn best_match_of_nothing_is_none() {
    assert_eq!(PatternMatcher::find_best_match(&[]), (None, None));
    let ms = vec![m("?accountId=0123&nonce=1")];
    assert_eq!(PatternMatcher::find_best_match(&ms), (None, None));
}

#[test]
fn extract_string_runs_through_text_bytes() {
    let mut data = vec![0u8, 1, 2];
    data.extend_from_slice(b"?accountId=abc&nonce=1\tx\ny");
    data.push(0);
    data.extend_from_slice(b"tail");
    let s = PatternMatcher::extract_string_from_data(&data, &PatternMatcher::PATTERN, 3);
    assert_eq!(s, "?accountId=abc&nonce=1\tx\ny");
}

#[test]
fn extract_string_stops_at_high_byte() {
    let mut data = b"?accountId=ab".to_vec();
    data.push(0x80);
    data.extend_from_slice(b"cd");
    let s = PatternMatcher::extract_string_from_data(&data, &PatternMatcher::PATTERN, 0);
    assert_eq!(s, "?accountId=ab");
}

#[test]
fn extract_string_reaches_end_of_data() {
    let data = b"?accountId=xyz".to_vec();
    let s = PatternMatcher::extract_string_from_data(&data, &PatternMatcher::PATTERN, 0);
    assert_eq!(s, "?accountId=xyz");
}

#[test]
fn extract_string_replaces_invalid_utf8() {
    let data = vec![0xffu8, b'a', b'b'];
    let s = PatternMatcher::extract_string_from_data(&data, &[0xff], 0);
    assert_eq!(s, "\u{fffd}ab");
}

#[test]
fn pattern_bytes_spell_marker() {
    assert_eq!(&PatternMatcher::PATTERN, b"?accountId=");
}

#[test]
fn leftmost_complete_account_id_and_whole_nonce_run() {
    let s = "?accountId=short ?accountId=0123456789abcdef01234567 &nonce=x &nonce=7788z&nonce=9";
    let (a, n) = PatternMatcher::extract_account_id_and_nonce(s);
    assert_eq!(a.as_deref(), Some("0123456789abcdef01234567"));
    assert_eq!(n.as_deref(), Some("7788"));
}
