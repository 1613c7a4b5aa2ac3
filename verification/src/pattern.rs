//! Extracting `accountId` and `nonce` from matched text.

use vstd::prelude::*;
use vstd::utf8::{
    decode_utf8, encode_utf8, encode_utf8_decode_utf8, encode_utf8_valid_utf8, is_ascii_chars,
    is_ascii_chars_encode_utf8, valid_utf8,
};
use crate::text::{
    all_digits, contains_seq, is_hex_id, occurs_at, opt_chars, starts_with, str_contains, string_from_utf8_lossy, utf8_lossy,
};
use crate::types::Match;
use crate::ee_log::{
    first_account_id_line, first_logged_in_id, ACCOUNT_ID_LINE_REGEX, HEX_ID_REGEX, LOGGED_IN_REGEX,
};

verus! {

broadcast use vstd::string::group_string_axioms;

/// Regex for the account id: 24 hex digits after `?accountId=`.
pub const ACCOUNT_ID_REGEX: &'static str = r"\?accountId=([0-9a-fA-F]{24})";

/// Regex for the nonce: the digits after `&nonce=`.
pub const NONCE_REGEX: &'static str = r"&nonce=([0-9]+)";

/// The marker that starts an auth string.
pub const ACCOUNT_ID_MARKER: &'static str = "?accountId=";

/// The marker that introduces the nonce.
pub const NONCE_MARKER: &'static str = "&nonce=";

/// Length in bytes of a well-formed account id.
pub const ACCOUNT_ID_LENGTH: usize = 24;

/// Capture group 1 of the leftmost match of the regular expression `pattern`
/// in `haystack` (`None` when the pattern does not compile, nothing matches
/// or the group did not take part).
pub uninterp spec fn regex_group1(pattern: Seq<char>, haystack: Seq<char>) -> Option<Seq<char>>;

/// `?accountId=` followed by 24 hex digits starts at `i` in `s`.
pub open spec fn account_id_at(s: Seq<char>, i: int) -> bool {
    let m = ACCOUNT_ID_MARKER@.len() as int;
    &&& 0 <= i
    &&& i + m + 24 <= s.len()
    &&& s.subrange(i, i + m) == ACCOUNT_ID_MARKER@
    &&& is_hex_id(s.subrange(i + m, i + m + 24))
}

/// The 24 hex digits of the first [`account_id_at`] position at or after
/// `i`.
pub open spec fn first_account_id_from(s: Seq<char>, i: int) -> Option<Seq<char>>
    decreases s.len() - i,
{
    if i < 0 || i >= s.len() {
        None
    } else if account_id_at(s, i) {
        Some(s.subrange(i + ACCOUNT_ID_MARKER@.len(), i + ACCOUNT_ID_MARKER@.len() + 24))
    } else {
        first_account_id_from(s, i + 1)
    }
}

/// The end of the run of ASCII digits that starts at `k`.
pub open spec fn digit_run_end(s: Seq<char>, k: int) -> int
    decreases s.len() - k,
{
    if 0 <= k < s.len() && '0' <= s[k] <= '9' {
        digit_run_end(s, k + 1)
    } else {
        k
    }
}

/// `&nonce=` followed by a digit starts at `i` in `s`.
pub open spec fn nonce_at(s: Seq<char>, i: int) -> bool {
    let m = NONCE_MARKER@.len() as int;
    &&& 0 <= i
    &&& i + m < s.len()
    &&& s.subrange(i, i + m) == NONCE_MARKER@
    &&& '0' <= s[i + m] <= '9'
}

/// The run of digits after the first [`nonce_at`] position at or after `i`.
pub open spec fn first_nonce_from(s: Seq<char>, i: int) -> Option<Seq<char>>
    decreases s.len() - i,
{
    if i < 0 || i >= s.len() {
        None
    } else if nonce_at(s, i) {
        Some(s.subrange(i + NONCE_MARKER@.len(), digit_run_end(s, i + NONCE_MARKER@.len())))
    } else {
        first_nonce_from(s, i + 1)
    }
}

proof fn lemma_digit_run_end(s: Seq<char>, k: int)
    requires
        0 <= k <= s.len(),
    ensures
        k <= digit_run_end(s, k) <= s.len(),
        forall|j: int| k <= j < digit_run_end(s, k) ==> '0' <= #[trigger] s[j] <= '9',
    decreases s.len() - k,
{
    if k < s.len() && '0' <= s[k] <= '9' {
        lemma_digit_run_end(s, k + 1);
    }
}

/// The account id found is 24 hex digits that follow `?accountId=` in `s`.
proof fn lemma_first_account_id(s: Seq<char>, i: int)
    requires
        0 <= i,
    ensures
        first_account_id_from(s, i) matches Some(a) ==> is_hex_id(a) && contains_seq(
            s,
            ACCOUNT_ID_MARKER@ + a,
        ),
    decreases s.len() - i,
{
    if i < s.len() {
        if account_id_at(s, i) {
            let m = ACCOUNT_ID_MARKER@.len() as int;
            let a = s.subrange(i + m, i + m + 24);
            assert(s.subrange(i, i + (ACCOUNT_ID_MARKER@ + a).len()) =~= ACCOUNT_ID_MARKER@ + a);
            assert(occurs_at(s, ACCOUNT_ID_MARKER@ + a, i));
        } else {
            lemma_first_account_id(s, i + 1);
        }
    }
}

/// The nonce found is one or more digits that follow `&nonce=` in `s`.
proof fn lemma_first_nonce(s: Seq<char>, i: int)
    requires
        0 <= i,
    ensures
        first_nonce_from(s, i) matches Some(n) ==> n.len() > 0 && all_digits(n) && contains_seq(
            s,
            NONCE_MARKER@ + n,
        ),
    decreases s.len() - i,
{
    if i < s.len() {
        if nonce_at(s, i) {
            let m = NONCE_MARKER@.len() as int;
            lemma_digit_run_end(s, i + m);
            lemma_digit_run_end(s, i + m + 1);
            let e = digit_run_end(s, i + m);
            assert(e == digit_run_end(s, i + m + 1));
            let n = s.subrange(i + m, e);
            assert(e > i + m);
            assert forall|j: int| 0 <= j < n.len() implies '0' <= #[trigger] n[j] <= '9' by {
                assert(n[j] == s[i + m + j]);
            }
            assert(s.subrange(i, i + (NONCE_MARKER@ + n).len()) =~= NONCE_MARKER@ + n);
            assert(occurs_at(s, NONCE_MARKER@ + n, i));
        } else {
            lemma_first_nonce(s, i + 1);
        }
    }
}

/// `regex::Regex::new` then `Regex::captures` and `Captures::get(1)`.
///
/// Claimed: the text of capture group 1 of the leftmost match is the named
/// [`regex_group1`] of the pattern and the haystack; from the regex syntax
/// and its leftmost-first search, for [`ACCOUNT_ID_REGEX`] it is the 24 hex
/// digits after the first `?accountId=` that is followed by 24 hex digits,
/// and for [`NONCE_REGEX`] the whole run of digits after the first `&nonce=`
/// that is followed by a digit; for [`LOGGED_IN_REGEX`], at the first
/// `Logged in` whose next `(` is followed by 24 hex digits and `)`, those
/// digits; for [`ACCOUNT_ID_LINE_REGEX`], at the first `AccountId:` whose
/// following white space is followed by 24 hex digits, those digits.
#[verifier::external_body]
pub fn regex_first_group1(pattern: &str, haystack: &str) -> (r: Option<String>)
    ensures
        opt_chars(r) == regex_group1(pattern@, haystack@),
        pattern@ == ACCOUNT_ID_REGEX@ ==> opt_chars(r) == first_account_id_from(haystack@, 0),
        pattern@ == NONCE_REGEX@ ==> opt_chars(r) == first_nonce_from(haystack@, 0),
        pattern@ == LOGGED_IN_REGEX@ ==> opt_chars(r) == first_logged_in_id(haystack@, 0),
        pattern@ == ACCOUNT_ID_LINE_REGEX@ ==> opt_chars(r) == first_account_id_line(haystack@, 0),
{
    let re = match regex::Regex::new(pattern) {
        Ok(re) => re,
        Err(_) => return None,
    };
    let caps = match re.captures(haystack) {
        Some(caps) => caps,
        None => return None,
    };
    match caps.get(1) {
        Some(m) => Some(m.as_str().to_string()),
        None => None,
    }
}

/// A capture of group 1: its byte offsets in the haystack and its text.
pub open spec fn span_view(o: Option<(usize, usize, String)>) -> Option<(usize, usize, Seq<char>)> {
    match o {
        Some(t) => Some((t.0, t.1, t.2@)),
        None => None,
    }
}

/// For each successive non-overlapping match of the regular expression
/// `pattern` in `haystack`, capture group 1 (byte start, byte end, text), or
/// `None` where the group did not take part; `None` overall when the pattern
/// does not compile.
pub uninterp spec fn regex_group1_spans(pattern: Seq<char>, haystack: Seq<char>) -> Option<
    Seq<Option<(usize, usize, Seq<char>)>>,
>;

/// `regex::Regex::new`, then `Regex::captures_iter` and `Captures::get(1)` with
/// `Match::start`, `Match::end` and `Match::as_str` for each match.
///
/// Claimed: the result is the named [`regex_group1_spans`] of the pattern and
/// the haystack; and, from the regex syntax, every capture of the library's
/// 24-hex-digit pattern is 24 hex digits.
#[verifier::external_body]
pub fn regex_all_group1(pattern: &str, haystack: &str) -> (r: Option<Vec<Option<(usize, usize, String)>>>)
    ensures
        match r {
            Some(v) => regex_group1_spans(pattern@, haystack@) == Some(
                v@.map_values(|o: Option<(usize, usize, String)>| span_view(o)),
            ),
            None => regex_group1_spans(pattern@, haystack@) is None,
        },
        pattern@ == HEX_ID_REGEX@ ==> (r matches Some(v) ==> forall|i: int|
            0 <= i < v@.len() ==> (#[trigger] v@[i] matches Some(t) ==> is_hex_id(t.2@))),
{
    let re = match regex::Regex::new(pattern) {
        Ok(re) => re,
        Err(_) => return None,
    };
    let mut spans = Vec::new();
    for caps in re.captures_iter(haystack) {
        let span = match caps.get(1) {
            Some(m) => Some((m.start(), m.end(), m.as_str().to_string())),
            None => None,
        };
        spans.push(span);
    }
    Some(spans)
}

/// The account id that [`ACCOUNT_ID_REGEX`] extracts from `s`: the 24 hex
/// digits after the first `?accountId=` that is followed by 24 hex digits.
pub open spec fn spec_account_id(s: Seq<char>) -> Option<Seq<char>> {
    first_account_id_from(s, 0)
}

/// The nonce that [`NONCE_REGEX`] extracts from `s`: all the digits after the
/// first `&nonce=` that is followed by a digit.
pub open spec fn spec_nonce(s: Seq<char>) -> Option<Seq<char>> {
    first_nonce_from(s, 0)
}

/// Both an account id and a nonce can be extracted from `s`.
pub open spec fn complete_pair(s: Seq<char>) -> Option<(Seq<char>, Seq<char>)> {
    match (spec_account_id(s), spec_nonce(s)) {
        (Some(a), Some(n)) => Some((a, n)),
        _ => None,
    }
}

/// `s` mentions both markers.
pub open spec fn has_both_markers(s: Seq<char>) -> bool {
    contains_seq(s, ACCOUNT_ID_MARKER@) && contains_seq(s, NONCE_MARKER@)
}

/// The first complete pair at index `>= i`; with `need_full`, only one whose
/// account id is [`ACCOUNT_ID_LENGTH`] bytes long counts.
pub open spec fn first_pair_from(strs: Seq<Seq<char>>, i: int, need_full: bool) -> Option<
    (Seq<char>, Seq<char>),
>
    decreases strs.len() - i,
{
    if i < 0 || i >= strs.len() {
        None
    } else {
        match complete_pair(strs[i]) {
            Some(p) => if !need_full || encode_utf8(p.0).len() == ACCOUNT_ID_LENGTH {
                Some(p)
            } else {
                first_pair_from(strs, i + 1, need_full)
            },
            None => first_pair_from(strs, i + 1, need_full),
        }
    }
}

/// The pair that [`PatternMatcher::find_best_match`] selects: the first
/// complete pair with a full-length account id, else the first complete pair.
pub open spec fn best_pair(strs: Seq<Seq<char>>) -> (Option<Seq<char>>, Option<Seq<char>>) {
    match first_pair_from(strs, 0, true) {
        Some(p) => (Some(p.0), Some(p.1)),
        None => match first_pair_from(strs, 0, false) {
            Some(p) => (Some(p.0), Some(p.1)),
            None => (None, None),
        },
    }
}

/// The texts of a sequence of matches.
pub open spec fn match_strings(ms: Seq<Match>) -> Seq<Seq<char>> {
    ms.map_values(|m: Match| m.string@)
}

/// A byte that may continue a matched text: printable ASCII, tab, newline or
/// carriage return.
pub open spec fn is_text_byte(b: u8) -> bool {
    b != 0 && ((32 <= b <= 126) || b == 9 || b == 10 || b == 13)
}

/// The end of the run of text bytes that starts at `k`.
pub open spec fn text_run_end(data: Seq<u8>, k: int) -> int
    decreases data.len() - k,
{
    if k < 0 || k >= data.len() || !is_text_byte(data[k]) {
        k
    } else {
        text_run_end(data, k + 1)
    }
}

/// The text that [`PatternMatcher::extract_string_from_data`] returns: the
/// bytes from the pattern to the end of the text run, decoded (lossily when
/// they are not valid UTF-8).
pub open spec fn extracted_text(data: Seq<u8>, pattern_len: int, pos: int) -> Seq<char> {
    let bytes = data.subrange(pos, text_run_end(data, pos + pattern_len));
    if valid_utf8(bytes) {
        decode_utf8(bytes)
    } else {
        utf8_lossy(bytes)
    }
}

/// Bytes read as characters, one character per byte.
pub open spec fn bytes_as_chars(bytes: Seq<u8>) -> Seq<char> {
    bytes.map_values(|b: u8| b as char)
}

/// When the pattern is text (printable ASCII, tab or line break) and occurs
/// at `pos`, the match text is exactly the bytes from the pattern to the end
/// of the text run read as characters, and it starts with the pattern.
pub proof fn lemma_extracted_text_is_ascii(data: Seq<u8>, pattern: Seq<u8>, pos: int)
    requires
        occurs_at(data, pattern, pos),
        forall|i: int| 0 <= i < pattern.len() ==> is_text_byte(#[trigger] pattern[i]),
    ensures
        extracted_text(data, pattern.len() as int, pos) == bytes_as_chars(
            data.subrange(pos, text_run_end(data, pos + pattern.len())),
        ),
        starts_with(extracted_text(data, pattern.len() as int, pos), bytes_as_chars(pattern)),
{
    let end = text_run_end(data, pos + pattern.len());
    lemma_text_run_end(data, pos + pattern.len());
    let bytes = data.subrange(pos, end);
    assert forall|i: int| 0 <= i < bytes.len() implies is_text_byte(#[trigger] bytes[i]) by {
        if i < pattern.len() {
            assert(data.subrange(pos, pos + pattern.len())[i] == pattern[i]);
        }
    }
    let chars = bytes_as_chars(bytes);
    assert(is_ascii_chars(chars));
    is_ascii_chars_encode_utf8(chars);
    assert forall|i: int| 0 <= i < bytes.len() implies (#[trigger] chars[i]) as u8 == bytes[i] by {
        assert(is_text_byte(bytes[i]));
    }
    assert(encode_utf8(chars) =~= bytes);
    encode_utf8_valid_utf8(chars);
    encode_utf8_decode_utf8(chars);
    assert(chars.subrange(0, pattern.len() as int) =~= bytes_as_chars(pattern));
}

proof fn lemma_text_run_end(data: Seq<u8>, k: int)
    requires
        0 <= k <= data.len(),
    ensures
        k <= text_run_end(data, k) <= data.len(),
        forall|j: int| k <= j < text_run_end(data, k) ==> is_text_byte(data[j]),
        text_run_end(data, k) < data.len() ==> !is_text_byte(data[text_run_end(data, k)]),
    decreases data.len() - k,
{
    if k < data.len() && is_text_byte(data[k]) {
        lemma_text_run_end(data, k + 1);
    }
}

/// Regex helpers for `accountId` / `nonce` extraction from match strings.
pub struct PatternMatcher;

impl PatternMatcher {
    /// The bytes searched for in memory: `?accountId=`.
    pub const PATTERN: [u8; 11] = [63, 97, 99, 99, 111, 117, 110, 116, 73, 100, 61];

    /// Extract the account id and the nonce from a match string.
    pub fn extract_account_id_and_nonce(match_string: &str) -> (r: (Option<String>, Option<String>))
        ensures
            opt_chars(r.0) == spec_account_id(match_string@),
            opt_chars(r.1) == spec_nonce(match_string@),
            r.0 matches Some(a) ==> is_hex_id(a@) && contains_seq(match_string@, ACCOUNT_ID_MARKER@ + a@),
            r.1 matches Some(n) ==> n@.len() > 0 && all_digits(n@) && contains_seq(
                match_string@,
                NONCE_MARKER@ + n@,
            ),
    {
        proof {
            lemma_first_account_id(match_string@, 0);
            lemma_first_nonce(match_string@, 0);
        }
        let account_id = regex_first_group1(ACCOUNT_ID_REGEX, match_string);
        let nonce = regex_first_group1(NONCE_REGEX, match_string);
        (account_id, nonce)
    }

    /// Whether the match string contains both `?accountId=` and `&nonce=`.
    pub fn has_both_patterns(match_string: &str) -> (b: bool)
        ensures
            b == has_both_markers(match_string@),
    {
        str_contains(match_string, ACCOUNT_ID_MARKER) && str_contains(match_string, NONCE_MARKER)
    }

    /// Find the best match from a list of matches, preferring a 24-byte
    /// account id.
    pub fn find_best_match(matches: &[Match]) -> (r: (Option<String>, Option<String>))
        ensures
            (opt_chars(r.0), opt_chars(r.1)) == best_pair(match_strings(matches@)),
            r.0 matches Some(a) ==> is_hex_id(a@),
            r.1 matches Some(n) ==> n@.len() > 0 && all_digits(n@),
    {
        let ghost strs = match_strings(matches@);
        let mut best: Option<(String, String)> = None;
        let mut i: usize = 0;
        while i < matches.len()
            invariant
                strs == match_strings(matches@),
                i <= matches@.len(),
                first_pair_from(strs, 0, true) == first_pair_from(strs, i as int, true),
                match best {
                    Some(p) => first_pair_from(strs, 0, false) == Some((p.0@, p.1@)) && is_hex_id(p.0@)
                        && p.1@.len() > 0 && all_digits(p.1@),
                    None => first_pair_from(strs, 0, false) == first_pair_from(
                        strs,
                        i as int,
                        false,
                    ),
                },
            decreases matches@.len() - i,
        {
            let (account_id, nonce) = Self::extract_account_id_and_nonce(matches[i].string.as_str());
            assert(strs[i as int] == matches@[i as int].string@);
            match (account_id, nonce) {
                (Some(acc_id), Some(nonce_value)) => {
                    assert(complete_pair(strs[i as int]) == Some((acc_id@, nonce_value@)));
                    if acc_id.as_str().as_bytes().len() == ACCOUNT_ID_LENGTH {
                        assert(encode_utf8(acc_id@).len() == ACCOUNT_ID_LENGTH);
                        assert(first_pair_from(strs, i as int, true) == Some((acc_id@, nonce_value@)));
                        return (Some(acc_id), Some(nonce_value));
                    } else if best.is_none() {
                        best = Some((acc_id, nonce_value));
                    }
                },
                _ => {},
            }
            i = i + 1;
        }
        match best {
            Some(p) => (Some(p.0), Some(p.1)),
            None => (None, None),
        }
    }

    /// Extract the text that starts with the pattern at `pos` and runs on
    /// through printable ASCII, tabs and line breaks.
    pub fn extract_string_from_data(data: &[u8], pattern_bytes: &[u8], pos: usize) -> (s: String)
        requires
            pos + pattern_bytes@.len() <= data@.len(),
        ensures
            s@ == extracted_text(data@, pattern_bytes@.len() as int, pos as int),
    {
        let data_len = data.len();
        let string_start = pos;
        let mut string_end = pos + pattern_bytes.len();
        proof {
            lemma_text_run_end(data@, string_end as int);
        }
        while string_end < data_len && data[string_end] != 0 && (32 <= data[string_end]
            && data[string_end] <= 126 || data[string_end] == 9 || data[string_end] == 10
            || data[string_end] == 13)
            invariant
                data_len == data@.len(),
                pos + pattern_bytes@.len() <= string_end <= data@.len(),
                text_run_end(data@, string_end as int) == text_run_end(
                    data@,
                    pos + pattern_bytes@.len(),
                ),
            decreases data@.len() - string_end,
        {
            string_end = string_end + 1;
        }
        string_from_utf8_lossy(&data[string_start..string_end])
    }
}

proof fn lemma_first_pair_from(strs: Seq<Seq<char>>, i: int, need_full: bool)
    requires
        0 <= i,
    ensures
        first_pair_from(strs, i, need_full) matches Some(p) ==> exists|j: int|
            i <= j < strs.len() && complete_pair(strs[j]) == Some(p) && (need_full ==> encode_utf8(
                p.0,
            ).len() == ACCOUNT_ID_LENGTH),
        first_pair_from(strs, i, need_full) is None ==> forall|j: int|
            i <= j < strs.len() ==> (complete_pair(#[trigger] strs[j]) matches Some(p) ==> (need_full
                && encode_utf8(p.0).len() != ACCOUNT_ID_LENGTH)),
    decreases strs.len() - i,
{
    if i < strs.len() {
        lemma_first_pair_from(strs, i + 1, need_full);
    }
}

/// The selection never splits a pair: it gives an account id exactly when it
/// gives a nonce, the pair is what one of the match strings yields, a pair is
/// selected whenever some string yields one, and a full-length account id is
/// preferred whenever some string yields one.
pub proof fn lemma_best_pair_is_whole(strs: Seq<Seq<char>>)
    ensures
        best_pair(strs).0 is Some <==> best_pair(strs).1 is Some,
        best_pair(strs).0 is Some ==> exists|i: int|
            0 <= i < strs.len() && complete_pair(strs[i]) == Some(
                (best_pair(strs).0->0, best_pair(strs).1->0),
            ),
        (exists|i: int| 0 <= i < strs.len() && complete_pair(strs[i]) is Some) ==> best_pair(
            strs,
        ).0 is Some,
        (exists|i: int|
            0 <= i < strs.len() && (complete_pair(#[trigger] strs[i]) matches Some(p) && encode_utf8(
                p.0,
            ).len() == ACCOUNT_ID_LENGTH)) ==> encode_utf8(best_pair(strs).0->0).len()
            == ACCOUNT_ID_LENGTH,
{
    lemma_first_pair_from(strs, 0, true);
    lemma_first_pair_from(strs, 0, false);
}

} // verus!
