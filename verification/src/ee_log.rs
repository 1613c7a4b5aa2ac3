//! Reading the account id out of Warframe's `EE.log`, and where that log may
//! lie.

use vstd::prelude::*;
use vstd::utf8::{encode_utf8, is_ascii_chars, is_ascii_chars_encode_utf8};
use crate::pattern::{regex_all_group1, regex_first_group1, regex_group1_spans, span_view};
use crate::text::{char_is_hex_digit, chars_of, is_hex_digit, is_hex_id, is_space, opt_chars, owned};

verus! {

broadcast use vstd::string::group_string_axioms;

/// `Logged in <name> (<24 hex digits>)`.
pub const LOGGED_IN_REGEX: &'static str = r"Logged in[^(]*\(([0-9a-fA-F]{24})\)";

/// `AccountId: <24 hex digits>`.
pub const ACCOUNT_ID_LINE_REGEX: &'static str = r"AccountId:\s*([0-9a-fA-F]{24})";

/// The words that open a `Logged in` line.
pub const LOGGED_IN_TEXT: &'static str = "Logged in";

/// The words that open an `AccountId:` line.
pub const ACCOUNT_ID_LINE_TEXT: &'static str = "AccountId:";

/// The first index `>= k` holding `c`, or the length of `s` when there is
/// none.
pub open spec fn first_char_from(s: Seq<char>, c: char, k: int) -> int
    decreases s.len() - k,
{
    if k < 0 || k >= s.len() {
        s.len() as int
    } else if s[k] == c {
        k
    } else {
        first_char_from(s, c, k + 1)
    }
}

/// The index of the `(` that [`LOGGED_IN_REGEX`] would take for a match
/// starting at `i`: the first one after `Logged in`.
pub open spec fn logged_in_paren(s: Seq<char>, i: int) -> int {
    first_char_from(s, '(', i + LOGGED_IN_TEXT@.len())
}

/// [`LOGGED_IN_REGEX`] matches at `i`: `Logged in`, then anything up to the
/// first `(`, then 24 hex digits and `)`.
pub open spec fn logged_in_at(s: Seq<char>, i: int) -> bool {
    let m = LOGGED_IN_TEXT@.len() as int;
    let k = logged_in_paren(s, i);
    &&& 0 <= i
    &&& i + m <= s.len()
    &&& s.subrange(i, i + m) == LOGGED_IN_TEXT@
    &&& k + 26 <= s.len()
    &&& is_hex_id(s.subrange(k + 1, k + 25))
    &&& s[k + 25] == ')'
}

/// The id of the leftmost [`logged_in_at`] match at or after `i`.
pub open spec fn first_logged_in_id(s: Seq<char>, i: int) -> Option<Seq<char>>
    decreases s.len() - i,
{
    if i < 0 || i >= s.len() {
        None
    } else if logged_in_at(s, i) {
        Some(s.subrange(logged_in_paren(s, i) + 1, logged_in_paren(s, i) + 25))
    } else {
        first_logged_in_id(s, i + 1)
    }
}

/// The end of the run of white space that starts at `k`.
pub open spec fn space_run_end(s: Seq<char>, k: int) -> int
    decreases s.len() - k,
{
    if 0 <= k < s.len() && is_space(s[k]) {
        space_run_end(s, k + 1)
    } else {
        k
    }
}

/// [`ACCOUNT_ID_LINE_REGEX`] matches at `i`: `AccountId:`, white space, then
/// 24 hex digits.
pub open spec fn account_id_line_at(s: Seq<char>, i: int) -> bool {
    let m = ACCOUNT_ID_LINE_TEXT@.len() as int;
    let k = space_run_end(s, i + m);
    &&& 0 <= i
    &&& i + m <= s.len()
    &&& s.subrange(i, i + m) == ACCOUNT_ID_LINE_TEXT@
    &&& k + 24 <= s.len()
    &&& is_hex_id(s.subrange(k, k + 24))
}

/// The id of the leftmost [`account_id_line_at`] match at or after `i`.
pub open spec fn first_account_id_line(s: Seq<char>, i: int) -> Option<Seq<char>>
    decreases s.len() - i,
{
    if i < 0 || i >= s.len() {
        None
    } else if account_id_line_at(s, i) {
        let k = space_run_end(s, i + ACCOUNT_ID_LINE_TEXT@.len());
        Some(s.subrange(k, k + 24))
    } else {
        first_account_id_line(s, i + 1)
    }
}

proof fn lemma_first_logged_in_id(s: Seq<char>, i: int)
    ensures
        first_logged_in_id(s, i) matches Some(id) ==> is_hex_id(id),
    decreases s.len() - i,
{
    if 0 <= i < s.len() && !logged_in_at(s, i) {
        lemma_first_logged_in_id(s, i + 1);
    }
}

proof fn lemma_first_account_id_line(s: Seq<char>, i: int)
    ensures
        first_account_id_line(s, i) matches Some(id) ==> is_hex_id(id),
    decreases s.len() - i,
{
    if 0 <= i < s.len() && !account_id_line_at(s, i) {
        lemma_first_account_id_line(s, i + 1);
    }
}

/// Scanning from `j`, the first logged-in id is the one of the first match at
/// or after `j`, and there is none when nothing from `j` on matches.
proof fn lemma_first_logged_in_id_at(s: Seq<char>, j: int, i: int)
    requires
        0 <= j <= i,
        forall|k: int| j <= k < i ==> !logged_in_at(s, k),
    ensures
        logged_in_at(s, i) ==> first_logged_in_id(s, j) == Some(
            s.subrange(logged_in_paren(s, i) + 1, logged_in_paren(s, i) + 25),
        ),
        i >= s.len() ==> first_logged_in_id(s, j) is None,
    decreases s.len() - j,
{
    if j < s.len() && j < i {
        lemma_first_logged_in_id_at(s, j + 1, i);
    }
}

/// The same for `AccountId:` lines.
proof fn lemma_first_account_id_line_at(s: Seq<char>, j: int, i: int)
    requires
        0 <= j <= i,
        forall|k: int| j <= k < i ==> !account_id_line_at(s, k),
    ensures
        account_id_line_at(s, i) ==> first_account_id_line(s, j) == Some(
            s.subrange(
                space_run_end(s, i + ACCOUNT_ID_LINE_TEXT@.len()),
                space_run_end(s, i + ACCOUNT_ID_LINE_TEXT@.len()) + 24,
            ),
        ),
        i >= s.len() ==> first_account_id_line(s, j) is None,
    decreases s.len() - j,
{
    if j < s.len() && j < i {
        lemma_first_account_id_line_at(s, j + 1, i);
    }
}

/// Which part of the log gives the account id. When the log has a
/// `Logged in <name> (<24 hex digits>)` match, the id is the one of its first
/// such match, whatever other hex strings the log holds. Otherwise, when it
/// has an `AccountId: <24 hex digits>` match, the id is the one of the first
/// such match. Only a log with neither falls back to the first standalone run
/// of 24 hex digits.
pub proof fn lemma_log_account_id_precedence(content: Seq<char>, i: int)
    ensures
        logged_in_at(content, i) && (forall|j: int| 0 <= j < i ==> !logged_in_at(content, j))
            ==> log_account_id(content) == Some(
            content.subrange(logged_in_paren(content, i) + 1, logged_in_paren(content, i) + 25),
        ),
        (forall|j: int| 0 <= j < content.len() ==> !logged_in_at(content, j)) && account_id_line_at(
            content,
            i,
        ) && (forall|j: int| 0 <= j < i ==> !account_id_line_at(content, j)) ==> log_account_id(
            content,
        ) == Some(
            content.subrange(
                space_run_end(content, i + ACCOUNT_ID_LINE_TEXT@.len()),
                space_run_end(content, i + ACCOUNT_ID_LINE_TEXT@.len()) + 24,
            ),
        ),
        (forall|j: int|
            0 <= j < content.len() ==> !logged_in_at(content, j) && !account_id_line_at(content, j))
            ==> log_account_id(content) == standalone_hex_id(content),
{
    if logged_in_at(content, i) && (forall|j: int| 0 <= j < i ==> !logged_in_at(content, j)) {
        lemma_first_logged_in_id_at(content, 0, i);
    }
    if forall|j: int| 0 <= j < content.len() ==> !logged_in_at(content, j) {
        lemma_first_logged_in_id_at(content, 0, content.len() as int);
        if account_id_line_at(content, i) && (forall|j: int| 0 <= j < i ==> !account_id_line_at(content, j)) {
            lemma_first_account_id_line_at(content, 0, i);
        }
    }
    if forall|j: int|
        0 <= j < content.len() ==> !logged_in_at(content, j) && !account_id_line_at(content, j) {
        lemma_first_logged_in_id_at(content, 0, content.len() as int);
        lemma_first_account_id_line_at(content, 0, content.len() as int);
    }
}

/// Any 24 hex digits.
pub const HEX_ID_REGEX: &'static str = r"([0-9a-fA-F]{24})";

/// The character at `k` of `s` is a hex digit (`chars().nth(k)`, a missing
/// character counting as a space).
pub open spec fn hex_at(s: Seq<char>, k: int) -> bool {
    0 <= k < s.len() && is_hex_digit(s[k])
}

/// A hex run from byte `start` to byte `end` that is not part of a longer
/// one. The neighbours are looked up by character index, as the log reader
/// does.
pub open spec fn stands_alone(content: Seq<char>, start: usize, end: usize) -> bool {
    (start == 0 || !hex_at(content, start - 1)) && (end >= encode_utf8(content).len() || !hex_at(
        content,
        end as int,
    ))
}

/// The first capture from index `i` on that stands alone.
pub open spec fn first_standalone(
    content: Seq<char>,
    spans: Seq<Option<(usize, usize, Seq<char>)>>,
    i: int,
) -> Option<Seq<char>>
    decreases spans.len() - i,
{
    if i < 0 || i >= spans.len() {
        None
    } else {
        match spans[i] {
            Some(t) => if stands_alone(content, t.0, t.1) {
                Some(t.2)
            } else {
                first_standalone(content, spans, i + 1)
            },
            None => first_standalone(content, spans, i + 1),
        }
    }
}

/// The first run of 24 hex digits that is not part of a longer hex run.
pub open spec fn standalone_hex_id(content: Seq<char>) -> Option<Seq<char>> {
    match regex_group1_spans(HEX_ID_REGEX@, content) {
        Some(spans) => first_standalone(content, spans, 0),
        None => None,
    }
}

/// The account id a log gives: from a `Logged in` line, else an
/// `AccountId:` line, else the first standalone run of 24 hex digits.
pub open spec fn log_account_id(content: Seq<char>) -> Option<Seq<char>> {
    match first_logged_in_id(content, 0) {
        Some(id) => Some(id),
        None => match first_account_id_line(content, 0) {
            Some(id) => Some(id),
            None => standalone_hex_id(content),
        },
    }
}

/// The id in `Logged in Username (0123456789abcdef01234567)`.
pub fn extract_from_logged_in(content: &str) -> (r: Option<String>)
    ensures
        opt_chars(r) == first_logged_in_id(content@, 0),
        r matches Some(id) ==> is_hex_id(id@),
{
    proof {
        lemma_first_logged_in_id(content@, 0);
    }
    regex_first_group1(LOGGED_IN_REGEX, content)
}

/// The id in `AccountId: 0123456789abcdef01234567`.
pub fn extract_from_account_id_line(content: &str) -> (r: Option<String>)
    ensures
        opt_chars(r) == first_account_id_line(content@, 0),
        r matches Some(id) ==> is_hex_id(id@),
{
    proof {
        lemma_first_account_id_line(content@, 0);
    }
    regex_first_group1(ACCOUNT_ID_LINE_REGEX, content)
}

/// The first 24-hex-digit string that is not part of a longer hex string.
pub fn extract_hex_string(content: &str) -> (r: Option<String>)
    ensures
        opt_chars(r) == standalone_hex_id(content@),
        r matches Some(id) ==> is_hex_id(id@),
{
    let spans = match regex_all_group1(HEX_ID_REGEX, content) {
        Some(spans) => spans,
        None => return None,
    };
    let ghost views = spans@.map_values(|o: Option<(usize, usize, String)>| span_view(o));
    let chars = chars_of(content);
    let byte_len = content.as_bytes().len();
    let mut i: usize = 0;
    while i < spans.len()
        invariant
            chars@ == content@,
            byte_len == encode_utf8(content@).len(),
            views == spans@.map_values(|o: Option<(usize, usize, String)>| span_view(o)),
            regex_group1_spans(HEX_ID_REGEX@, content@) == Some(views),
            forall|j: int|
                0 <= j < spans@.len() ==> (#[trigger] spans@[j] matches Some(t) ==> is_hex_id(t.2@)),
            i <= spans@.len(),
            first_standalone(content@, views, 0) == first_standalone(content@, views, i as int),
        decreases spans@.len() - i,
    {
        assert(views[i as int] == span_view(spans@[i as int]));
        match &spans[i] {
            Some(span) => {
                let start = span.0;
                let end = span.1;
                let before_ok = start == 0 || !(start - 1 < chars.len() && char_is_hex_digit(
                    chars[start - 1],
                ));
                let after_ok = end >= byte_len || !(end < chars.len() && char_is_hex_digit(
                    chars[end],
                ));
                if before_ok && after_ok {
                    return Some(owned(span.2.as_str()));
                }
            },
            None => {},
        }
        i = i + 1;
    }
    None
}

/// The account id in a log's content: from a `Logged in` line, else an
/// `AccountId:` line, else the first standalone 24-hex-digit string.
pub fn account_id_from_log_content(content: &str) -> (r: Option<String>)
    ensures
        opt_chars(r) == log_account_id(content@),
        r matches Some(id) ==> is_hex_id(id@) && encode_utf8(id@).len() == 24,
{
    let r = match extract_from_logged_in(content) {
        Some(id) => Some(id),
        None => match extract_from_account_id_line(content) {
            Some(id) => Some(id),
            None => extract_hex_string(content),
        },
    };
    proof {
        if r is Some {
            lemma_hex_id_bytes(r->0@);
        }
    }
    r
}

/// An account id of 24 hex digits is 24 bytes long in UTF-8.
pub proof fn lemma_hex_id_bytes(id: Seq<char>)
    requires
        is_hex_id(id),
    ensures
        encode_utf8(id).len() == 24,
{
    assert(is_ascii_chars(id)) by {
        assert forall|i: int| 0 <= i < id.len() implies '\0' <= #[trigger] id[i] <= '\u{7f}' by {
            assert(is_hex_digit(id[i]));
        }
    }
    is_ascii_chars_encode_utf8(id);
}

/// The Steam compatibility-data path of Warframe's log under a home
/// directory, after `.../share/Steam`.
pub open spec fn steam_log_tail() -> Seq<Seq<char>> {
    seq![
        "steamapps"@,
        "compatdata"@,
        "230410"@,
        "pfx"@,
        "drive_c"@,
        "users"@,
        "steamuser"@,
        "AppData"@,
        "Local"@,
        "Warframe"@,
        "EE.log"@,
    ]
}

/// Where `EE.log` may lie, each as path components to be joined: under
/// `LOCALAPPDATA`; under the home directory for Steam, Flatpak Steam and a
/// plain Wine prefix (for `user`, else `steamuser`); and in the current
/// directory.
pub open spec fn log_paths(local_app_data: Option<Seq<char>>, home: Option<Seq<char>>, user: Option<Seq<char>>) -> Seq<Seq<Seq<char>>> {
    let windows = match local_app_data {
        Some(l) => seq![seq![l, "Warframe"@, "EE.log"@]],
        None => Seq::empty(),
    };
    let unix = match home {
        Some(h) => seq![
            seq![h, ".local"@, "share"@, "Steam"@] + steam_log_tail(),
            seq![h, ".var"@, "app"@, "com.valvesoftware.Steam"@, ".local"@, "share"@, "Steam"@]
                + steam_log_tail(),
            seq![
                h,
                ".wine"@,
                "drive_c"@,
                "users"@,
                match user {
                    Some(u) => u,
                    None => "steamuser"@,
                },
                "AppData"@,
                "Local"@,
                "Warframe"@,
                "EE.log"@,
            ],
        ],
        None => Seq::empty(),
    };
    windows + unix + seq![seq!["EE.log"@]]
}

/// The candidate locations of `EE.log`, component by component: first
/// `<LOCALAPPDATA>/Warframe/EE.log` when it is set; then, when there is a
/// home directory, the Steam (Proton) prefix, the Flatpak Steam prefix, both
/// ending in `steamapps/compatdata/230410/pfx/drive_c/users/steamuser/
/// AppData/Local/Warframe/EE.log`, and the Wine prefix
/// `.wine/drive_c/users/<user or steamuser>/AppData/Local/Warframe/EE.log`;
/// last, `EE.log` in the current directory.
pub proof fn lemma_log_paths_exact(
    local_app_data: Option<Seq<char>>,
    home: Option<Seq<char>>,
    user: Option<Seq<char>>,
)
    ensures
        ({
            let ps = log_paths(local_app_data, home, user);
            let o: int = if local_app_data is Some { 1 } else { 0 };
            &&& local_app_data matches Some(l) ==> ps[0] == seq![l, "Warframe"@, "EE.log"@]
            &&& ps.len() == o + (if home is Some { 4int } else { 1int })
            &&& ps[ps.len() - 1] == seq!["EE.log"@]
            &&& home matches Some(h) ==> {
                &&& ps[o] == seq![
                    h,
                    ".local"@,
                    "share"@,
                    "Steam"@,
                    "steamapps"@,
                    "compatdata"@,
                    "230410"@,
                    "pfx"@,
                    "drive_c"@,
                    "users"@,
                    "steamuser"@,
                    "AppData"@,
                    "Local"@,
                    "Warframe"@,
                    "EE.log"@,
                ]
                &&& ps[o + 1] == seq![
                    h,
                    ".var"@,
                    "app"@,
                    "com.valvesoftware.Steam"@,
                    ".local"@,
                    "share"@,
                    "Steam"@,
                    "steamapps"@,
                    "compatdata"@,
                    "230410"@,
                    "pfx"@,
                    "drive_c"@,
                    "users"@,
                    "steamuser"@,
                    "AppData"@,
                    "Local"@,
                    "Warframe"@,
                    "EE.log"@,
                ]
                &&& ps[o + 2] == seq![
                    h,
                    ".wine"@,
                    "drive_c"@,
                    "users"@,
                    match user {
                        Some(u) => u,
                        None => "steamuser"@,
                    },
                    "AppData"@,
                    "Local"@,
                    "Warframe"@,
                    "EE.log"@,
                ]
            }
        }),
{
    let ps = log_paths(local_app_data, home, user);
    match home {
        Some(h) => {
            let o: int = if local_app_data is Some { 1 } else { 0 };
            assert(ps[o] =~= seq![
                h,
                ".local"@,
                "share"@,
                "Steam"@,
                "steamapps"@,
                "compatdata"@,
                "230410"@,
                "pfx"@,
                "drive_c"@,
                "users"@,
                "steamuser"@,
                "AppData"@,
                "Local"@,
                "Warframe"@,
                "EE.log"@,
            ]);
            assert(ps[o + 1] =~= seq![
                h,
                ".var"@,
                "app"@,
                "com.valvesoftware.Steam"@,
                ".local"@,
                "share"@,
                "Steam"@,
                "steamapps"@,
                "compatdata"@,
                "230410"@,
                "pfx"@,
                "drive_c"@,
                "users"@,
                "steamuser"@,
                "AppData"@,
                "Local"@,
                "Warframe"@,
                "EE.log"@,
            ]);
        },
        None => {},
    }
}

/// The views of path components.
pub open spec fn components_view(p: Vec<String>) -> Seq<Seq<char>> {
    p@.map_values(|s: String| s@)
}

/// The views of a list of paths.
pub open spec fn paths_view(ps: Seq<Vec<String>>) -> Seq<Seq<Seq<char>>> {
    ps.map_values(|p: Vec<String>| components_view(p))
}

fn push_component(path: &mut Vec<String>, component: &str)
    ensures
        components_view(*final(path)) == components_view(*old(path)).push(component@),
{
    let ghost before = components_view(*path);
    path.push(owned(component));
    assert(components_view(*path) =~= before.push(component@));
}

fn push_steam_tail(path: &mut Vec<String>)
    ensures
        components_view(*final(path)) == components_view(*old(path)) + steam_log_tail(),
{
    let ghost before = components_view(*path);
    push_component(path, "steamapps");
    push_component(path, "compatdata");
    push_component(path, "230410");
    push_component(path, "pfx");
    push_component(path, "drive_c");
    push_component(path, "users");
    push_component(path, "steamuser");
    push_component(path, "AppData");
    push_component(path, "Local");
    push_component(path, "Warframe");
    push_component(path, "EE.log");
    assert(components_view(*path) =~= before + steam_log_tail());
}

fn push_path(paths: &mut Vec<Vec<String>>, path: Vec<String>)
    ensures
        paths_view(final(paths)@) == paths_view(old(paths)@).push(components_view(path)),
{
    let ghost before = paths_view(paths@);
    let ghost p = components_view(path);
    paths.push(path);
    assert(paths_view(paths@) =~= before.push(p));
}

/// The candidate locations of `EE.log`, in the order they are tried, each
/// as path components; `local_app_data`, `home` and `user` are the values of
/// `LOCALAPPDATA`, `HOME` and `USER` where set.
pub fn ee_log_paths(local_app_data: Option<&str>, home: Option<&str>, user: Option<&str>) -> (paths:
    Vec<Vec<String>>)
    ensures
        paths_view(paths@) == log_paths(
            match local_app_data {
                Some(l) => Some(l@),
                None => None,
            },
            match home {
                Some(h) => Some(h@),
                None => None,
            },
            match user {
                Some(u) => Some(u@),
                None => None,
            },
        ),
{
    let mut paths: Vec<Vec<String>> = Vec::new();
    assert(paths_view(paths@) =~= Seq::<Seq<Seq<char>>>::empty());
    if let Some(local) = local_app_data {
        let mut p: Vec<String> = Vec::new();
        push_component(&mut p, local);
        push_component(&mut p, "Warframe");
        push_component(&mut p, "EE.log");
        assert(components_view(p) =~= seq![local@, "Warframe"@, "EE.log"@]);
        push_path(&mut paths, p);
    }
    if let Some(h) = home {
        let mut steam: Vec<String> = Vec::new();
        push_component(&mut steam, h);
        push_component(&mut steam, ".local");
        push_component(&mut steam, "share");
        push_component(&mut steam, "Steam");
        assert(components_view(steam) =~= seq![h@, ".local"@, "share"@, "Steam"@]);
        push_steam_tail(&mut steam);
        push_path(&mut paths, steam);

        let mut flatpak: Vec<String> = Vec::new();
        push_component(&mut flatpak, h);
        push_component(&mut flatpak, ".var");
        push_component(&mut flatpak, "app");
        push_component(&mut flatpak, "com.valvesoftware.Steam");
        push_component(&mut flatpak, ".local");
        push_component(&mut flatpak, "share");
        push_component(&mut flatpak, "Steam");
        assert(components_view(flatpak) =~= seq![
            h@,
            ".var"@,
            "app"@,
            "com.valvesoftware.Steam"@,
            ".local"@,
            "share"@,
            "Steam"@,
        ]);
        push_steam_tail(&mut flatpak);
        push_path(&mut paths, flatpak);

        let mut wine: Vec<String> = Vec::new();
        push_component(&mut wine, h);
        push_component(&mut wine, ".wine");
        push_component(&mut wine, "drive_c");
        push_component(&mut wine, "users");
        match user {
            Some(u) => push_component(&mut wine, u),
            None => push_component(&mut wine, "steamuser"),
        }
        push_component(&mut wine, "AppData");
        push_component(&mut wine, "Local");
        push_component(&mut wine, "Warframe");
        push_component(&mut wine, "EE.log");
        push_path(&mut paths, wine);
    }
    let mut here: Vec<String> = Vec::new();
    push_component(&mut here, "EE.log");
    push_path(&mut paths, here);
    assert(paths_view(paths@) =~~= log_paths(
        match local_app_data {
            Some(l) => Some(l@),
            None => None,
        },
        match home {
            Some(h) => Some(h@),
            None => None,
        },
        match user {
            Some(u) => Some(u@),
            None => None,
        },
    ));
    paths
}

} // verus!
