//! Character- and byte-level helpers shared by the parsers and formatters.

use vstd::prelude::*;
use vstd::std_specs::iter::IteratorSpec;
use vstd::utf8::{decode_utf8, encode_scalar, valid_utf8};

verus! {

broadcast use vstd::string::group_string_axioms;

/// The view of an optional owned string.
pub open spec fn opt_chars(o: Option<String>) -> Option<Seq<char>> {
    match o {
        Some(s) => Some(s@),
        None => None,
    }
}

/// The text that `String::from_utf8_lossy` produces for `bytes`.
pub uninterp spec fn utf8_lossy(bytes: Seq<u8>) -> Seq<char>;

/// `String::from_utf8_lossy` followed by `to_string`.
///
/// Claimed: the result is the named lossy decoding of the bytes, and equals
/// the ordinary UTF-8 decoding when the bytes are valid UTF-8 (the function
/// only replaces invalid sequences). What replaces an invalid sequence is left
/// unsaid.
#[verifier::external_body]
pub fn string_from_utf8_lossy(bytes: &[u8]) -> (s: String)
    ensures
        s@ == utf8_lossy(bytes@),
        valid_utf8(bytes@) ==> s@ == decode_utf8(bytes@),
{
    String::from_utf8_lossy(bytes).to_string()
}

/// `String::from_utf8`: succeeds exactly on valid UTF-8 and then holds the
/// decoded characters.
#[verifier::external_body]
pub fn string_from_utf8(bytes: Vec<u8>) -> (r: Option<String>)
    ensures
        r is Some <==> valid_utf8(bytes@),
        r matches Some(s) ==> s@ == decode_utf8(bytes@),
{
    match String::from_utf8(bytes) {
        Ok(s) => Some(s),
        Err(_) => None,
    }
}

/// `String::push`: appends one character.
#[verifier::external_body]
pub fn push_char(s: &mut String, c: char)
    ensures
        final(s)@ == old(s)@.push(c),
{
    s.push(c);
}

/// The characters of `s`, in order.
pub fn chars_of(s: &str) -> (out: Vec<char>)
    ensures
        out@ == s@,
{
    let mut out: Vec<char> = Vec::new();
    for c in it: s.chars()
        invariant
            out@ == it.seq().take(it.index() as int),
    {
        out.push(c);
    }
    out
}

/// Builds a `String` holding exactly `chars`.
pub fn string_from_chars(chars: &[char]) -> (s: String)
    ensures
        s@ == chars@,
{
    let mut s = String::new();
    let mut i: usize = 0;
    while i < chars.len()
        invariant
            i <= chars@.len(),
            s@ == chars@.subrange(0, i as int),
        decreases chars@.len() - i,
    {
        push_char(&mut s, chars[i]);
        i = i + 1;
    }
    s
}

/// An owned copy of a byte slice.
pub fn bytes_to_vec(s: &[u8]) -> (v: Vec<u8>)
    ensures
        v@ == s@,
{
    let mut v: Vec<u8> = Vec::new();
    let mut i: usize = 0;
    while i < s.len()
        invariant
            i <= s@.len(),
            v@ == s@.subrange(0, i as int),
        decreases s@.len() - i,
    {
        v.push(s[i]);
        i = i + 1;
    }
    assert(s@.subrange(0, s@.len() as int) =~= s@);
    v
}

/// An owned copy of `s`.
pub fn owned(s: &str) -> (r: String)
    ensures
        r@ == s@,
{
    let v = chars_of(s);
    string_from_chars(v.as_slice())
}

/// `needle` occurs in `hay` starting at index `i`.
pub open spec fn occurs_at<T>(hay: Seq<T>, needle: Seq<T>, i: int) -> bool {
    0 <= i && i + needle.len() <= hay.len() && hay.subrange(i, i + needle.len()) == needle
}

/// `needle` occurs somewhere in `hay`.
pub open spec fn contains_seq<T>(hay: Seq<T>, needle: Seq<T>) -> bool {
    exists|i: int| occurs_at(hay, needle, i)
}

/// The first index `>= from` at which `needle` occurs in `hay`.
pub open spec fn first_occurrence_from<T>(hay: Seq<T>, needle: Seq<T>, from: int) -> Option<int>
    decreases hay.len() + 1 - from,
{
    if from < 0 || from + needle.len() > hay.len() {
        None
    } else if occurs_at(hay, needle, from) {
        Some(from)
    } else {
        first_occurrence_from(hay, needle, from + 1)
    }
}

/// The result of `first_occurrence_from` is an occurrence, and nothing
/// between `from` and it is one.
pub proof fn lemma_first_occurrence<T>(hay: Seq<T>, needle: Seq<T>, from: int)
    requires
        0 <= from,
    ensures
        first_occurrence_from(hay, needle, from) matches Some(p) ==> from <= p && occurs_at(
            hay,
            needle,
            p,
        ) && forall|j: int| from <= j < p ==> !occurs_at(hay, needle, j),
        first_occurrence_from(hay, needle, from) is None ==> forall|j: int|
            from <= j ==> !occurs_at(hay, needle, j),
    decreases hay.len() + 1 - from,
{
    if from + needle.len() > hay.len() {
    } else if occurs_at(hay, needle, from) {
    } else {
        lemma_first_occurrence(hay, needle, from + 1);
    }
}

/// Whether `needle` occurs in `hay` at index `i` (bytes).
pub fn bytes_occur_at(hay: &[u8], needle: &[u8], i: usize) -> (b: bool)
    ensures
        b == occurs_at(hay@, needle@, i as int),
{
    if i > hay.len() || needle.len() > hay.len() - i {
        return false;
    }
    let mut k: usize = 0;
    while k < needle.len()
        invariant
            hay.len() == hay@.len(),
            i + needle@.len() <= hay@.len(),
            k <= needle@.len(),
            forall|j: int| 0 <= j < k ==> hay@[i + j] == needle@[j],
        decreases needle@.len() - k,
    {
        if hay[i + k] != needle[k] {
            assert(hay@.subrange(i as int, i + needle@.len())[k as int] != needle@[k as int]);
            return false;
        }
        k = k + 1;
    }
    assert(hay@.subrange(i as int, i + needle@.len()) =~= needle@);
    true
}

/// The first index `>= from` at which `needle` occurs in `hay` (bytes).
pub fn bytes_find_from(hay: &[u8], needle: &[u8], from: usize) -> (r: Option<usize>)
    ensures
        match r {
            Some(p) => first_occurrence_from(hay@, needle@, from as int) == Some(p as int),
            None => first_occurrence_from(hay@, needle@, from as int) is None,
        },
{
    let mut i = from;
    while i <= hay.len() && needle.len() <= hay.len() - i
        invariant
            from <= i,
            hay.len() == hay@.len(),
            first_occurrence_from(hay@, needle@, from as int) == first_occurrence_from(
                hay@,
                needle@,
                i as int,
            ),
        decreases hay@.len() + 1 - i,
    {
        if bytes_occur_at(hay, needle, i) {
            return Some(i);
        }
        if i == hay.len() {
            assert(first_occurrence_from(hay@, needle@, i + 1) is None);
            return None;
        }
        i = i + 1;
    }
    None
}

/// Whether `needle` occurs in `hay` at index `i` (characters).
pub fn chars_occur_at(hay: &[char], needle: &[char], i: usize) -> (b: bool)
    ensures
        b == occurs_at(hay@, needle@, i as int),
{
    if i > hay.len() || needle.len() > hay.len() - i {
        return false;
    }
    let mut k: usize = 0;
    while k < needle.len()
        invariant
            hay.len() == hay@.len(),
            i + needle@.len() <= hay@.len(),
            k <= needle@.len(),
            forall|j: int| 0 <= j < k ==> hay@[i + j] == needle@[j],
        decreases needle@.len() - k,
    {
        if hay[i + k] != needle[k] {
            assert(hay@.subrange(i as int, i + needle@.len())[k as int] != needle@[k as int]);
            return false;
        }
        k = k + 1;
    }
    assert(hay@.subrange(i as int, i + needle@.len()) =~= needle@);
    true
}

/// Whether `needle` occurs anywhere in `hay` (characters).
pub fn chars_contain(hay: &[char], needle: &[char]) -> (b: bool)
    ensures
        b == contains_seq(hay@, needle@),
{
    let mut i: usize = 0;
    while i <= hay.len() && needle.len() <= hay.len() - i
        invariant
            hay.len() == hay@.len(),
            forall|j: int| 0 <= j < i ==> !occurs_at(hay@, needle@, j),
        decreases hay@.len() + 1 - i,
    {
        if chars_occur_at(hay, needle, i) {
            return true;
        }
        if i == hay.len() {
            assert forall|j: int| !occurs_at(hay@, needle@, j) by {
                if j > i as int {
                }
            }
            return false;
        }
        i = i + 1;
    }
    assert forall|j: int| !occurs_at(hay@, needle@, j) by {
        if j >= i as int {
        }
    }
    false
}

/// Whether `needle` occurs anywhere in `hay`.
pub fn str_contains(hay: &str, needle: &str) -> (b: bool)
    ensures
        b == contains_seq(hay@, needle@),
{
    let h = chars_of(hay);
    let n = chars_of(needle);
    chars_contain(h.as_slice(), n.as_slice())
}

/// `c` has the Unicode `White_Space` property (what `char::is_whitespace`
/// tests).
pub open spec fn is_space(c: char) -> bool {
    ||| '\t' <= c <= '\r'
    ||| c == ' '
    ||| c == '\u{85}'
    ||| c == '\u{a0}'
    ||| c == '\u{1680}'
    ||| '\u{2000}' <= c <= '\u{200a}'
    ||| c == '\u{2028}'
    ||| c == '\u{2029}'
    ||| c == '\u{202f}'
    ||| c == '\u{205f}'
    ||| c == '\u{3000}'
}

/// Tests [`is_space`].
pub fn char_is_space(c: char) -> (b: bool)
    ensures
        b == is_space(c),
{
    ('\t' <= c && c <= '\r') || c == ' ' || c == '\u{85}' || c == '\u{a0}' || c == '\u{1680}'
        || ('\u{2000}' <= c && c <= '\u{200a}') || c == '\u{2028}' || c == '\u{2029}' || c
        == '\u{202f}' || c == '\u{205f}' || c == '\u{3000}'
}

/// `s` without leading and trailing whitespace (what `str::trim` returns).
#[verifier::opaque]
pub open spec fn trimmed(s: Seq<char>) -> Seq<char> {
    if forall|i: int| 0 <= i < s.len() ==> is_space(s[i]) {
        Seq::empty()
    } else {
        let start = choose|a: int|
            0 <= a < s.len() && !is_space(s[a]) && forall|i: int| 0 <= i < a ==> is_space(s[i]);
        let end = choose|b: int|
            0 <= b < s.len() && !is_space(s[b]) && forall|i: int| b < i < s.len() ==> is_space(
                s[i],
            );
        s.subrange(start, end + 1)
    }
}

/// The bounds `[start, end)` of `s` once leading and trailing whitespace is
/// cut off.
pub fn trim_bounds(s: &[char]) -> (r: (usize, usize))
    ensures
        r.0 <= r.1 <= s@.len(),
        s@.subrange(r.0 as int, r.1 as int) == trimmed(s@),
{
    let mut a: usize = 0;
    while a < s.len() && char_is_space(s[a])
        invariant
            a <= s@.len(),
            forall|i: int| 0 <= i < a ==> is_space(s@[i]),
        decreases s@.len() - a,
    {
        a = a + 1;
    }
    if a == s.len() {
        reveal(trimmed);
        assert(s@.subrange(a as int, a as int) =~= Seq::<char>::empty());
        return (a, a);
    }
    let mut b: usize = s.len();
    while b > a && char_is_space(s[b - 1])
        invariant
            a < b <= s@.len(),
            !is_space(s@[a as int]),
            forall|i: int| b <= i < s@.len() ==> is_space(s@[i]),
        decreases b,
    {
        b = b - 1;
    }
    proof {
        reveal(trimmed);
        let start = choose|x: int|
            0 <= x < s@.len() && !is_space(s@[x]) && forall|i: int| 0 <= i < x ==> is_space(s@[i]);
        let end = choose|y: int|
            0 <= y < s@.len() && !is_space(s@[y]) && forall|i: int| y < i < s@.len() ==> is_space(
                s@[i],
            );
        assert(0 <= (b - 1) < s@.len() && !is_space(s@[b - 1]) && forall|i: int|
            (b - 1) < i < s@.len() ==> is_space(s@[i]));
        if start < a {
        } else if start > a {
            assert(is_space(s@[a as int]));
        }
        if end < b - 1 {
            assert(is_space(s@[b - 1]));
        } else if end > b - 1 {
        }
    }
    (a, b)
}

/// What `str::trim` returns, as an owned string.
pub fn trim(s: &str) -> (r: String)
    ensures
        r@ == trimmed(s@),
{
    let v = chars_of(s);
    let (a, b) = trim_bounds(v.as_slice());
    let mut out = String::new();
    let mut i = a;
    while i < b
        invariant
            a <= i <= b <= v@.len(),
            out@ == v@.subrange(a as int, i as int),
        decreases b - i,
    {
        push_char(&mut out, v[i]);
        i = i + 1;
    }
    out
}

/// `c` is an ASCII hexadecimal digit.
pub open spec fn is_hex_digit(c: char) -> bool {
    ('0' <= c <= '9') || ('a' <= c <= 'f') || ('A' <= c <= 'F')
}

/// Exactly 24 ASCII hexadecimal digits: the shape of an account id.
pub open spec fn is_hex_id(s: Seq<char>) -> bool {
    s.len() == 24 && forall|i: int| 0 <= i < s.len() ==> is_hex_digit(#[trigger] s[i])
}

/// Tests [`is_hex_digit`] (`char::is_ascii_hexdigit`).
pub fn char_is_hex_digit(c: char) -> (b: bool)
    ensures
        b == is_hex_digit(c),
{
    ('0' <= c && c <= '9') || ('a' <= c && c <= 'f') || ('A' <= c && c <= 'F')
}

/// `c` with ASCII upper-case letters mapped to lower case.
pub open spec fn ascii_lower(c: char) -> char {
    if 'A' <= c <= 'Z' {
        ((c as u32) + 32) as char
    } else {
        c
    }
}

/// Computes [`ascii_lower`].
pub fn char_ascii_lower(c: char) -> (r: char)
    ensures
        r == ascii_lower(c),
{
    if 'A' <= c && c <= 'Z' {
        let u = (c as u32) + 32;
        assert(u <= 0x7f);
        // an ASCII code point is always a `char`
        char_from_ascii(u)
    } else {
        c
    }
}

/// The `char` of an ASCII code point.
fn char_from_ascii(u: u32) -> (c: char)
    requires
        u <= 0x7f,
    ensures
        c == u as char,
        c as u32 == u,
{
    let b = u as u8;
    b as char
}

/// Two strings equal up to ASCII case (what `str::eq_ignore_ascii_case` tests
/// when the second one is ASCII).
pub open spec fn eq_ignore_ascii_case(a: Seq<char>, b: Seq<char>) -> bool {
    a.len() == b.len() && forall|i: int| 0 <= i < a.len() ==> ascii_lower(a[i]) == ascii_lower(b[i])
}

/// Tests [`eq_ignore_ascii_case`].
pub fn chars_eq_ignore_ascii_case(a: &[char], b: &[char]) -> (r: bool)
    ensures
        r == eq_ignore_ascii_case(a@, b@),
{
    if a.len() != b.len() {
        return false;
    }
    let mut i: usize = 0;
    while i < a.len()
        invariant
            a@.len() == b@.len(),
            i <= a@.len(),
            forall|j: int| 0 <= j < i ==> ascii_lower(a@[j]) == ascii_lower(b@[j]),
        decreases a@.len() - i,
    {
        if char_ascii_lower(a[i]) != char_ascii_lower(b[i]) {
            return false;
        }
        i = i + 1;
    }
    true
}

/// The lower-case hexadecimal digit for `d < 16`.
pub open spec fn hex_char(d: nat) -> char {
    if d < 10 {
        (('0' as nat) + d) as char
    } else {
        (('a' as nat) + d - 10) as char
    }
}

/// `n` in lower-case hexadecimal without leading zeros (what `{:x}` prints).
pub open spec fn hex_lower(n: nat) -> Seq<char>
    decreases n,
{
    if n < 16 {
        seq![hex_char(n)]
    } else {
        hex_lower(n / 16) + seq![hex_char(n % 16)]
    }
}

fn hex_digit_char(d: u64) -> (c: char)
    requires
        d < 16,
    ensures
        c == hex_char(d as nat),
{
    if d < 10 {
        char_from_ascii((48 + d) as u32)
    } else {
        char_from_ascii((87 + d) as u32)
    }
}

/// Appends `n` in lower-case hexadecimal to `out`.
pub fn push_hex(out: &mut String, n: u64)
    ensures
        final(out)@ == old(out)@ + hex_lower(n as nat),
{
    let mut digits: Vec<char> = Vec::new();
    let mut v = n;
    while v >= 16
        invariant
            hex_lower(n as nat) == hex_lower(v as nat) + digits@,
        decreases v,
    {
        let d = hex_digit_char(v % 16);
        digits.insert(0, d);
        proof {
            assert(hex_lower(v as nat) == hex_lower((v / 16) as nat) + seq![hex_char((v % 16) as nat)]);
            assert(hex_lower(n as nat) =~= hex_lower((v / 16) as nat) + digits@);
        }
        v = v / 16;
    }
    let first = hex_digit_char(v);
    push_char(out, first);
    let ghost start = old(out)@.push(first);
    let mut i: usize = 0;
    while i < digits.len()
        invariant
            i <= digits@.len(),
            out@ == start + digits@.subrange(0, i as int),
        decreases digits@.len() - i,
    {
        push_char(out, digits[i]);
        i = i + 1;
    }
    assert(digits@.subrange(0, digits@.len() as int) =~= digits@);
    assert(old(out)@ + hex_lower(n as nat) =~= start + digits@);
}

/// The value of a non-empty run of ASCII decimal digits.
pub open spec fn decimal_value(d: Seq<char>) -> nat
    decreases d.len(),
{
    if d.len() == 0 {
        0
    } else {
        decimal_value(d.drop_last()) * 10 + ((d.last() as nat) - ('0' as nat)) as nat
    }
}

/// All characters are ASCII decimal digits.
pub open spec fn all_digits(d: Seq<char>) -> bool {
    forall|i: int| 0 <= i < d.len() ==> '0' <= #[trigger] d[i] <= '9'
}

/// What `str::parse::<u32>` returns: an optional `+`, then one or more ASCII
/// digits whose value fits in a `u32`.
pub open spec fn parse_u32_spec(s: Seq<char>) -> Option<u32> {
    let d = if s.len() > 0 && s[0] == '+' {
        s.drop_first()
    } else {
        s
    };
    if d.len() == 0 || !all_digits(d) || decimal_value(d) > u32::MAX {
        None
    } else {
        Some(decimal_value(d) as u32)
    }
}

proof fn lemma_decimal_prefix_bound(d: Seq<char>, k: int)
    requires
        all_digits(d),
        0 <= k <= d.len(),
    ensures
        decimal_value(d.subrange(0, k)) <= decimal_value(d),
    decreases d.len() - k,
{
    if k < d.len() {
        lemma_decimal_prefix_bound(d, k + 1);
        assert(d.subrange(0, k + 1).drop_last() =~= d.subrange(0, k));
        assert('0' <= d[k] <= '9');
    } else {
        assert(d.subrange(0, k) =~= d);
    }
}

/// Parses a decimal `u32` as `str::parse::<u32>` does.
pub fn parse_u32(s: &[char]) -> (r: Option<u32>)
    ensures
        r == parse_u32_spec(s@),
{
    let mut i: usize = 0;
    if s.len() > 0 && s[0] == '+' {
        i = 1;
    }
    let ghost d = if s@.len() > 0 && s@[0] == '+' {
        s@.drop_first()
    } else {
        s@
    };
    assert(d =~= s@.subrange(i as int, s@.len() as int));
    if i == s.len() {
        return None;
    }
    let mut value: u64 = 0;
    let mut k: usize = i;
    while k < s.len()
        invariant
            i <= k <= s@.len(),
            d == (if s@.len() > 0 && s@[0] == '+' {
                s@.drop_first()
            } else {
                s@
            }),
            d =~= s@.subrange(i as int, s@.len() as int),
            all_digits(d.subrange(0, k - i)),
            value == decimal_value(d.subrange(0, k - i)),
            value <= u32::MAX,
        decreases s@.len() - k,
    {
        let c = s[k];
        if !('0' <= c && c <= '9') {
            assert(d[k - i] == c);
            assert(!all_digits(d));
            return None;
        }
        let digit = (c as u32 - '0' as u32) as u64;
        assert(d.subrange(0, k + 1 - i).drop_last() =~= d.subrange(0, k - i));
        let next = value * 10 + digit;
        assert(next == decimal_value(d.subrange(0, k + 1 - i)));
        if next > 4294967295u64 {
            proof {
                if all_digits(d) {
                    lemma_decimal_prefix_bound(d, k + 1 - i);
                }
                assert(d.len() > 0);
            }
            return None;
        }
        value = next;
        k = k + 1;
    }
    assert(d.subrange(0, s@.len() - i) =~= d);
    Some(value as u32)
}

/// The number of bytes of the UTF-8 encoding of `c` (`char::len_utf8`).
pub fn char_utf8_len(c: char) -> (n: usize)
    ensures
        n == encode_scalar(c as u32).len(),
{
    proof {
        vstd::utf8::char_is_scalar(c);
    }
    let v = c as u32;
    if v <= 0x7f {
        1
    } else if v <= 0x7ff {
        2
    } else if v <= 0xffff {
        3
    } else {
        4
    }
}

/// The longest prefix of `s` whose UTF-8 encoding fits in `n` bytes.
pub open spec fn take_bytes(s: Seq<char>, n: int) -> Seq<char>
    decreases s.len(),
{
    if s.len() == 0 {
        s
    } else if encode_scalar(s[0] as u32).len() > n {
        Seq::empty()
    } else {
        seq![s[0]] + take_bytes(s.drop_first(), n - encode_scalar(s[0] as u32).len())
    }
}

/// Two strings are equal.
pub fn str_eq(a: &str, b: &str) -> (r: bool)
    ensures
        r == (a@ == b@),
{
    let x = chars_of(a);
    let y = chars_of(b);
    if x.len() != y.len() {
        return false;
    }
    let mut i: usize = 0;
    while i < x.len()
        invariant
            x@ == a@,
            y@ == b@,
            x@.len() == y@.len(),
            i <= x@.len(),
            forall|j: int| 0 <= j < i ==> x@[j] == y@[j],
        decreases x@.len() - i,
    {
        if x[i] != y[i] {
            assert(x@[i as int] != y@[i as int]);
            return false;
        }
        i = i + 1;
    }
    assert(x@ =~= y@);
    true
}

/// `prefix` is a prefix of `s`.
pub open spec fn starts_with(s: Seq<char>, prefix: Seq<char>) -> bool {
    prefix.len() <= s.len() && s.subrange(0, prefix.len() as int) == prefix
}

/// `suffix` is a suffix of `s`.
pub open spec fn ends_with(s: Seq<char>, suffix: Seq<char>) -> bool {
    suffix.len() <= s.len() && s.subrange(s.len() - suffix.len(), s.len() as int) == suffix
}

/// Whether `s` starts with `prefix` (`str::starts_with`).
pub fn str_starts_with(s: &str, prefix: &str) -> (r: bool)
    ensures
        r == starts_with(s@, prefix@),
{
    let x = chars_of(s);
    let p = chars_of(prefix);
    let b = chars_occur_at(x.as_slice(), p.as_slice(), 0);
    b
}

/// Whether `s` ends with `suffix` (`str::ends_with`).
pub fn str_ends_with(s: &str, suffix: &str) -> (r: bool)
    ensures
        r == ends_with(s@, suffix@),
{
    let x = chars_of(s);
    let p = chars_of(suffix);
    if p.len() > x.len() {
        return false;
    }
    chars_occur_at(x.as_slice(), p.as_slice(), x.len() - p.len())
}

/// The first index `>= from` at which `needle` occurs in `hay` (characters).
pub fn chars_find_from(hay: &[char], needle: &[char], from: usize) -> (r: Option<usize>)
    ensures
        match r {
            Some(p) => first_occurrence_from(hay@, needle@, from as int) == Some(p as int),
            None => first_occurrence_from(hay@, needle@, from as int) is None,
        },
{
    let mut i = from;
    while i <= hay.len() && needle.len() <= hay.len() - i
        invariant
            from <= i,
            hay.len() == hay@.len(),
            first_occurrence_from(hay@, needle@, from as int) == first_occurrence_from(
                hay@,
                needle@,
                i as int,
            ),
        decreases hay@.len() + 1 - i,
    {
        if chars_occur_at(hay, needle, i) {
            return Some(i);
        }
        if i == hay.len() {
            assert(first_occurrence_from(hay@, needle@, i + 1) is None);
            return None;
        }
        i = i + 1;
    }
    None
}

/// The pieces of `s` between occurrences of `sep` (what `str::split` with a
/// `char` gives); always at least one piece.
pub open spec fn split_char(s: Seq<char>, sep: char) -> Seq<Seq<char>>
    decreases s.len(),
{
    if s.len() == 0 {
        seq![Seq::empty()]
    } else {
        let rest = split_char(s.drop_first(), sep);
        if s[0] == sep {
            seq![Seq::<char>::empty()] + rest
        } else {
            rest.update(0, seq![s[0]] + rest[0])
        }
    }
}

proof fn lemma_split_char_nonempty(s: Seq<char>, sep: char)
    ensures
        split_char(s, sep).len() >= 1,
    decreases s.len(),
{
    if s.len() > 0 {
        lemma_split_char_nonempty(s.drop_first(), sep);
    }
}

/// A line without the `\r` of a `\r\n` ending.
pub open spec fn strip_cr(line: Seq<char>) -> Seq<char> {
    if line.len() > 0 && line.last() == '\r' {
        line.drop_last()
    } else {
        line
    }
}

/// The lines of `s` as `str::lines` gives them: split at `\n`, each ended
/// line without a trailing `\r`, and no empty last line after a final
/// line break.
pub open spec fn lines_of_text(s: Seq<char>) -> Seq<Seq<char>> {
    let parts = split_char(s, '\n');
    let ended = parts.take(parts.len() - 1).map_values(|l: Seq<char>| strip_cr(l));
    if parts.last().len() == 0 {
        ended
    } else {
        ended.push(parts.last())
    }
}

/// The views of a list of character vectors.
pub open spec fn char_vecs_view(v: Seq<Vec<char>>) -> Seq<Seq<char>> {
    v.map_values(|x: Vec<char>| x@)
}

/// The pieces of `s` between occurrences of `sep`.
pub fn split_chars(s: &[char], sep: char) -> (parts: Vec<Vec<char>>)
    ensures
        char_vecs_view(parts@) == split_char(s@, sep),
{
    let mut parts: Vec<Vec<char>> = Vec::new();
    parts.push(Vec::new());
    let mut i: usize = s.len();
    assert(s@.subrange(i as int, s@.len() as int) =~= Seq::<char>::empty());
    assert(char_vecs_view(parts@) =~= seq![Seq::<char>::empty()]);
    while i > 0
        invariant
            i <= s@.len(),
            parts@.len() >= 1,
            char_vecs_view(parts@) == split_char(s@.subrange(i as int, s@.len() as int), sep),
        decreases i,
    {
        let c = s[i - 1];
        let ghost tail = s@.subrange(i as int, s@.len() as int);
        let ghost whole = s@.subrange(i - 1, s@.len() as int);
        assert(whole.drop_first() =~= tail);
        assert(whole[0] == c);
        let ghost before = char_vecs_view(parts@);
        if c == sep {
            parts.insert(0, Vec::new());
            assert(char_vecs_view(parts@) =~= seq![Seq::<char>::empty()] + before);
        } else {
            let ghost whole_before = parts@;
            let mut first = parts.remove(0);
            let ghost old_first = first@;
            assert(old_first == before[0]);
            let ghost rest_vecs = parts@;
            assert(rest_vecs =~= whole_before.subrange(1, whole_before.len() as int));
            first.insert(0, c);
            assert(first@ =~= seq![c] + old_first);
            parts.insert(0, first);
            assert(char_vecs_view(parts@) =~= before.update(0, seq![c] + before[0]));
        }
        i = i - 1;
    }
    assert(s@.subrange(0, s@.len() as int) =~= s@);
    parts
}

/// The lines of `s`, as `str::lines` gives them.
pub fn text_lines(s: &str) -> (lines: Vec<Vec<char>>)
    ensures
        char_vecs_view(lines@) == lines_of_text(s@),
{
    let chars = chars_of(s);
    let parts = split_chars(chars.as_slice(), '\n');
    proof {
        lemma_split_char_nonempty(s@, '\n');
    }
    let ghost pv = char_vecs_view(parts@);
    let n = parts.len();
    let mut lines: Vec<Vec<char>> = Vec::new();
    let mut k: usize = 0;
    while k + 1 < n
        invariant
            n == parts@.len(),
            n >= 1,
            pv == char_vecs_view(parts@),
            k <= n - 1,
            char_vecs_view(lines@) == pv.take(k as int).map_values(|l: Seq<char>| strip_cr(l)),
        decreases n - k,
    {
        let line = &parts[k];
        let mut copy: Vec<char> = Vec::new();
        let mut len = line.len();
        if len > 0 && line[len - 1] == '\r' {
            len = len - 1;
        }
        let mut j: usize = 0;
        while j < len
            invariant
                len <= line@.len(),
                j <= len,
                copy@ == line@.subrange(0, j as int),
            decreases len - j,
        {
            copy.push(line[j]);
            j = j + 1;
        }
        assert(copy@ =~= strip_cr(pv[k as int]));
        let ghost before = char_vecs_view(lines@);
        lines.push(copy);
        assert(char_vecs_view(lines@) =~= before.push(strip_cr(pv[k as int])));
        assert(pv.take(k + 1).map_values(|l: Seq<char>| strip_cr(l)) =~= pv.take(k as int).map_values(
            |l: Seq<char>| strip_cr(l),
        ).push(strip_cr(pv[k as int])));
        k = k + 1;
    }
    let last = &parts[n - 1];
    if last.len() > 0 {
        let mut copy: Vec<char> = Vec::new();
        let mut j: usize = 0;
        while j < last.len()
            invariant
                j <= last@.len(),
                copy@ == last@.subrange(0, j as int),
            decreases last@.len() - j,
        {
            copy.push(last[j]);
            j = j + 1;
        }
        assert(copy@ =~= last@);
        let ghost before = char_vecs_view(lines@);
        lines.push(copy);
        assert(char_vecs_view(lines@) =~= before.push(pv.last()));
    }
    lines
}

/// The whitespace-separated words of `s` (what `str::split_whitespace`
/// gives).
pub open spec fn words(s: Seq<char>) -> Seq<Seq<char>>
    decreases s.len(),
{
    if s.len() == 0 {
        Seq::empty()
    } else {
        let rest = words(s.drop_first());
        if is_space(s[0]) {
            rest
        } else if s.len() > 1 && !is_space(s[1]) {
            rest.update(0, seq![s[0]] + rest[0])
        } else {
            seq![seq![s[0]]] + rest
        }
    }
}

proof fn lemma_words_nonempty(s: Seq<char>)
    requires
        s.len() > 0,
        !is_space(s[0]),
    ensures
        words(s).len() >= 1,
    decreases s.len(),
{
    if s.len() > 1 && !is_space(s[1]) {
        lemma_words_nonempty(s.drop_first());
    }
}

/// The whitespace-separated words of `s`.
pub fn split_words(s: &[char]) -> (ws: Vec<Vec<char>>)
    ensures
        char_vecs_view(ws@) == words(s@),
{
    let mut ws: Vec<Vec<char>> = Vec::new();
    let mut i: usize = s.len();
    assert(s@.subrange(i as int, s@.len() as int) =~= Seq::<char>::empty());
    assert(char_vecs_view(ws@) =~= Seq::<Seq<char>>::empty());
    while i > 0
        invariant
            i <= s@.len(),
            char_vecs_view(ws@) == words(s@.subrange(i as int, s@.len() as int)),
        decreases i,
    {
        let c = s[i - 1];
        let ghost tail = s@.subrange(i as int, s@.len() as int);
        let ghost whole = s@.subrange(i - 1, s@.len() as int);
        assert(whole.drop_first() =~= tail);
        assert(whole[0] == c);
        let ghost before = char_vecs_view(ws@);
        if char_is_space(c) {
        } else if i < s.len() && !char_is_space(s[i]) {
            assert(whole[1] == s@[i as int]);
            proof {
                lemma_words_nonempty(tail);
            }
            let ghost whole_before = ws@;
            let mut first = ws.remove(0);
            let ghost old_first = first@;
            assert(old_first == before[0]);
            let ghost rest_vecs = ws@;
            assert(rest_vecs =~= whole_before.subrange(1, whole_before.len() as int));
            first.insert(0, c);
            assert(first@ =~= seq![c] + old_first);
            ws.insert(0, first);
            assert(char_vecs_view(ws@) =~= before.update(0, seq![c] + before[0]));
        } else {
            let mut w: Vec<char> = Vec::new();
            w.push(c);
            ws.insert(0, w);
            assert(char_vecs_view(ws@) =~= seq![seq![c]] + before);
        }
        i = i - 1;
    }
    assert(s@.subrange(0, s@.len() as int) =~= s@);
    ws
}

/// `s` without leading `c` characters.
pub open spec fn strip_leading(s: Seq<char>, c: char) -> Seq<char>
    decreases s.len(),
{
    if s.len() > 0 && s[0] == c {
        strip_leading(s.drop_first(), c)
    } else {
        s
    }
}

/// `s` without trailing `c` characters.
pub open spec fn strip_trailing(s: Seq<char>, c: char) -> Seq<char>
    decreases s.len(),
{
    if s.len() > 0 && s.last() == c {
        strip_trailing(s.drop_last(), c)
    } else {
        s
    }
}

/// `s` without leading or trailing `c` (what `str::trim_matches` with a
/// `char` gives).
pub open spec fn trim_char(s: Seq<char>, c: char) -> Seq<char> {
    strip_trailing(strip_leading(s, c), c)
}

/// Cuts every leading and trailing `c` from `s`.
pub fn trim_matches_char(s: &[char], c: char) -> (r: Vec<char>)
    ensures
        r@ == trim_char(s@, c),
{
    let mut a: usize = 0;
    assert(s@.subrange(0, s@.len() as int) =~= s@);
    while a < s.len() && s[a] == c
        invariant
            a <= s@.len(),
            strip_leading(s@, c) == strip_leading(s@.subrange(a as int, s@.len() as int), c),
        decreases s@.len() - a,
    {
        assert(s@.subrange(a as int, s@.len() as int).drop_first() =~= s@.subrange(a + 1, s@.len() as int));
        a = a + 1;
    }
    proof {
        assert(s@.subrange(0, s@.len() as int) =~= s@);
    }
    let ghost lead = s@.subrange(a as int, s@.len() as int);
    assert(strip_leading(s@, c) == lead);
    let mut b: usize = s.len();
    while b > a && s[b - 1] == c
        invariant
            a <= b <= s@.len(),
            lead == s@.subrange(a as int, s@.len() as int),
            strip_trailing(lead, c) == strip_trailing(s@.subrange(a as int, b as int), c),
        decreases b,
    {
        assert(s@.subrange(a as int, b as int).drop_last() =~= s@.subrange(a as int, b - 1));
        b = b - 1;
    }
    let mut r: Vec<char> = Vec::new();
    let mut k = a;
    while k < b
        invariant
            a <= k <= b <= s@.len(),
            r@ == s@.subrange(a as int, k as int),
        decreases b - k,
    {
        r.push(s[k]);
        k = k + 1;
    }
    r
}

/// `n` in decimal (what `{}` prints for an unsigned integer).
pub open spec fn decimal(n: nat) -> Seq<char>
    decreases n,
{
    if n < 10 {
        seq![(('0' as nat) + n) as char]
    } else {
        decimal(n / 10) + seq![(('0' as nat) + n % 10) as char]
    }
}

/// Appends `n` in decimal to `out`.
pub fn push_decimal(out: &mut String, n: u64)
    ensures
        final(out)@ == old(out)@ + decimal(n as nat),
{
    let mut digits: Vec<char> = Vec::new();
    let mut v = n;
    while v >= 10
        invariant
            decimal(n as nat) == decimal(v as nat) + digits@,
        decreases v,
    {
        let d = char_from_ascii((48 + v % 10) as u32);
        digits.insert(0, d);
        proof {
            assert(decimal(v as nat) == decimal((v / 10) as nat) + seq![(('0' as nat) + (v % 10) as nat) as char]);
            assert(decimal(n as nat) =~= decimal((v / 10) as nat) + digits@);
        }
        v = v / 10;
    }
    let first = char_from_ascii((48 + v) as u32);
    push_char(out, first);
    let ghost start = old(out)@.push(first);
    let mut i: usize = 0;
    while i < digits.len()
        invariant
            i <= digits@.len(),
            out@ == start + digits@.subrange(0, i as int),
        decreases digits@.len() - i,
    {
        push_char(out, digits[i]);
        i = i + 1;
    }
    assert(digits@.subrange(0, digits@.len() as int) =~= digits@);
    assert(old(out)@ + decimal(n as nat) =~= start + digits@);
}

} // verus!
