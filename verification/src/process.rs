//! Reading the Warframe process id out of `tasklist`, `pgrep` and `ps`
//! output.

use vstd::prelude::*;
use crate::text::{
    char_vecs_view, chars_contain, chars_find_from, chars_of, contains_seq, decimal,
    first_occurrence_from, lines_of_text, owned, parse_u32, parse_u32_spec, push_decimal,
    split_words, str_eq, text_lines, trim_char, trim_matches_char, words,
};

verus! {

broadcast use vstd::string::group_string_axioms;

/// The Warframe executable's image name.
pub const IMAGE_NAME: &'static str = "Warframe.x64.exe";

/// The image name as Linux truncates it (15 characters).
pub const TRUNCATED_IMAGE_NAME: &'static str = "Warframe.x64.ex";

/// The separator between quoted fields of `tasklist /FO CSV`.
pub const CSV_SEPARATOR: &'static str = "\",\"";

/// The second field of a `tasklist` CSV line, without its quotes, when the
/// line has at least two fields.
pub open spec fn csv_second_field(line: Seq<char>) -> Option<Seq<char>> {
    match first_occurrence_from(line, CSV_SEPARATOR@, 0) {
        None => None,
        Some(i) => {
            let rest = line.subrange(i + CSV_SEPARATOR@.len(), line.len() as int);
            let field = match first_occurrence_from(rest, CSV_SEPARATOR@, 0) {
                Some(j) => rest.subrange(0, j),
                None => rest,
            };
            Some(trim_char(field, '"'))
        },
    }
}

/// The process id a `tasklist` line gives: the line names the image and its
/// second CSV field is a number.
pub open spec fn tasklist_line_pid(line: Seq<char>) -> Option<u32> {
    if !contains_seq(line, IMAGE_NAME@) {
        None
    } else {
        match csv_second_field(line) {
            Some(f) => parse_u32_spec(f),
            None => None,
        }
    }
}

/// The process id a `ps aux` line gives: the line names the image (in full
/// or truncated) and its second word is a number.
pub open spec fn ps_line_pid(line: Seq<char>) -> Option<u32> {
    if !(contains_seq(line, IMAGE_NAME@) || contains_seq(line, TRUNCATED_IMAGE_NAME@)) {
        None
    } else if words(line).len() >= 2 {
        parse_u32_spec(words(line)[1])
    } else {
        None
    }
}

/// The process id of the first line from `i` on that gives one in
/// `tasklist` output.
pub open spec fn first_tasklist_pid(lines: Seq<Seq<char>>, i: int) -> Option<u32>
    decreases lines.len() - i,
{
    if i < 0 || i >= lines.len() {
        None
    } else {
        match tasklist_line_pid(lines[i]) {
            Some(pid) => Some(pid),
            None => first_tasklist_pid(lines, i + 1),
        }
    }
}

/// The process id of the first line from `i` on that gives one in `ps aux`
/// output.
pub open spec fn first_ps_pid(lines: Seq<Seq<char>>, i: int) -> Option<u32>
    decreases lines.len() - i,
{
    if i < 0 || i >= lines.len() {
        None
    } else {
        match ps_line_pid(lines[i]) {
            Some(pid) => Some(pid),
            None => first_ps_pid(lines, i + 1),
        }
    }
}

/// The process id `pgrep` printed: the first word of its first line.
pub open spec fn pgrep_pid(stdout: Seq<char>) -> Option<u32> {
    let ls = lines_of_text(stdout);
    if ls.len() == 0 || words(ls[0]).len() == 0 {
        None
    } else {
        parse_u32_spec(words(ls[0])[0])
    }
}

/// Locates the Warframe process.
pub struct ProcessFinder;

impl ProcessFinder {
    /// Whether the platform is searched with `tasklist` (Windows) rather than
    /// `pgrep` and `ps`.
    pub fn searches_with_tasklist(platform_name: &str) -> (b: bool)
        ensures
            b == (platform_name@ == "Windows"@),
    {
        str_eq(platform_name, "Windows")
    }

    fn tasklist_line(line: &[char], image: &[char], separator: &[char]) -> (r: Option<u32>)
        requires
            image@ == IMAGE_NAME@,
            separator@ == CSV_SEPARATOR@,
        ensures
            r == tasklist_line_pid(line@),
    {
        if !chars_contain(line, image) {
            return None;
        }
        proof {
            crate::text::lemma_first_occurrence(line@, separator@, 0);
        }
        let line_len = line.len();
        let i = match chars_find_from(line, separator, 0) {
            Some(i) => i,
            None => return None,
        };
        let start = i + separator.len();
        let mut rest: Vec<char> = Vec::new();
        let mut k = start;
        while k < line.len()
            invariant
                start <= k <= line@.len(),
                rest@ == line@.subrange(start as int, k as int),
            decreases line@.len() - k,
        {
            rest.push(line[k]);
            k = k + 1;
        }
        let end = match chars_find_from(rest.as_slice(), separator, 0) {
            Some(j) => j,
            None => rest.len(),
        };
        proof {
            crate::text::lemma_first_occurrence(rest@, separator@, 0);
        }
        let mut field: Vec<char> = Vec::new();
        let mut m: usize = 0;
        while m < end
            invariant
                end <= rest@.len(),
                m <= end,
                field@ == rest@.subrange(0, m as int),
            decreases end - m,
        {
            field.push(rest[m]);
            m = m + 1;
        }
        assert(field@ =~= match first_occurrence_from(rest@, CSV_SEPARATOR@, 0) {
            Some(j) => rest@.subrange(0, j),
            None => rest@,
        });
        let stripped = trim_matches_char(field.as_slice(), '"');
        parse_u32(stripped.as_slice())
    }

    /// The process id in `tasklist /FI "IMAGENAME eq Warframe.x64.exe" /FO
    /// CSV /NH` output: the second field of the first line naming the image
    /// whose second field is a number.
    pub fn pid_from_tasklist(stdout: &str) -> (r: Option<u32>)
        ensures
            r == first_tasklist_pid(lines_of_text(stdout@), 0),
    {
        let lines = text_lines(stdout);
        let ghost lv = char_vecs_view(lines@);
        let image = chars_of(IMAGE_NAME);
        let separator = chars_of(CSV_SEPARATOR);
        let mut i: usize = 0;
        while i < lines.len()
            invariant
                lv == char_vecs_view(lines@),
                lv == lines_of_text(stdout@),
                image@ == IMAGE_NAME@,
                separator@ == CSV_SEPARATOR@,
                i <= lines@.len(),
                first_tasklist_pid(lv, 0) == first_tasklist_pid(lv, i as int),
            decreases lines@.len() - i,
        {
            assert(lv[i as int] == lines@[i as int]@);
            match Self::tasklist_line(lines[i].as_slice(), image.as_slice(), separator.as_slice()) {
                Some(pid) => {
                    return Some(pid);
                },
                None => {},
            }
            i = i + 1;
        }
        None
    }

    /// The process id `pgrep` printed: the first word of its first line.
    pub fn pid_from_pgrep(stdout: &str) -> (r: Option<u32>)
        ensures
            r == pgrep_pid(stdout@),
    {
        let lines = text_lines(stdout);
        if lines.len() == 0 {
            return None;
        }
        let ws = split_words(lines[0].as_slice());
        assert(char_vecs_view(lines@)[0] == lines@[0]@);
        if ws.len() == 0 {
            return None;
        }
        assert(char_vecs_view(ws@)[0] == ws@[0]@);
        parse_u32(ws[0].as_slice())
    }

    fn ps_line(line: &[char], image: &[char], truncated: &[char]) -> (r: Option<u32>)
        requires
            image@ == IMAGE_NAME@,
            truncated@ == TRUNCATED_IMAGE_NAME@,
        ensures
            r == ps_line_pid(line@),
    {
        if !(chars_contain(line, image) || chars_contain(line, truncated)) {
            return None;
        }
        let parts = split_words(line);
        if parts.len() >= 2 {
            assert(char_vecs_view(parts@)[1] == parts@[1]@);
            parse_u32(parts[1].as_slice())
        } else {
            None
        }
    }

    /// The process id in `ps aux` output: the second word of the first line
    /// naming the image (in full or truncated) whose second word is a number.
    pub fn pid_from_ps(stdout: &str) -> (r: Option<u32>)
        ensures
            r == first_ps_pid(lines_of_text(stdout@), 0),
    {
        let lines = text_lines(stdout);
        let ghost lv = char_vecs_view(lines@);
        let image = chars_of(IMAGE_NAME);
        let truncated = chars_of(TRUNCATED_IMAGE_NAME);
        let mut i: usize = 0;
        while i < lines.len()
            invariant
                lv == char_vecs_view(lines@),
                lv == lines_of_text(stdout@),
                image@ == IMAGE_NAME@,
                truncated@ == TRUNCATED_IMAGE_NAME@,
                i <= lines@.len(),
                first_ps_pid(lv, 0) == first_ps_pid(lv, i as int),
            decreases lines@.len() - i,
        {
            assert(lv[i as int] == lines@[i as int]@);
            match Self::ps_line(lines[i].as_slice(), image.as_slice(), truncated.as_slice()) {
                Some(pid) => {
                    return Some(pid);
                },
                None => {},
            }
            i = i + 1;
        }
        None
    }

    /// The message printed when the process is found: `Found Warframe
    /// process: <name> (PID: <pid>)`, or without the name.
    pub fn found_message(name: Option<&str>, pid: u32) -> (s: String)
        ensures
            s@ == match name {
                Some(n) => "Found Warframe process: "@ + n@ + " (PID: "@ + decimal(pid as nat)
                    + ")"@,
                None => "Found Warframe process (PID: "@ + decimal(pid as nat) + ")"@,
            },
    {
        let mut s = match name {
            Some(n) => {
                let mut s = owned("Found Warframe process: ");
                s.append(n);
                s.append(" (PID: ");
                s
            },
            None => owned("Found Warframe process (PID: "),
        };
        push_decimal(&mut s, pid as u64);
        s.append(")");
        s
    }
}

/// A command tried when looking for the process on Linux and macOS, in the
/// order they are tried.
#[derive(Debug, Clone, Copy, PartialEq, Eq)]
pub enum UnixSearch {
    /// `pgrep -f Warframe.x64.exe`.
    PgrepFull,
    /// `pgrep -f Warframe.x64.ex` (the name as Linux truncates it).
    PgrepTruncated,
    /// `ps aux`.
    Ps,
}

/// What to do after a command has run.
#[derive(Debug)]
pub enum UnixSearchStep {
    /// The process was found: its id and the message to print.
    Found(u32, String),
    /// Run this command next.
    Run(UnixSearch),
    /// No command found the process.
    NotFound,
}

/// The process id that `search`'s output gives.
pub open spec fn unix_search_pid(search: UnixSearch, stdout: Seq<char>) -> Option<u32> {
    match search {
        UnixSearch::Ps => first_ps_pid(lines_of_text(stdout), 0),
        _ => pgrep_pid(stdout),
    }
}

/// The command after `search`, if any.
pub open spec fn unix_search_after(search: UnixSearch) -> Option<UnixSearch> {
    match search {
        UnixSearch::PgrepFull => Some(UnixSearch::PgrepTruncated),
        UnixSearch::PgrepTruncated => Some(UnixSearch::Ps),
        UnixSearch::Ps => None,
    }
}

/// The name a found message gives for `search`.
pub open spec fn unix_search_name(search: UnixSearch) -> Option<Seq<char>> {
    match search {
        UnixSearch::PgrepFull => Some(IMAGE_NAME@),
        UnixSearch::PgrepTruncated => Some(TRUNCATED_IMAGE_NAME@),
        UnixSearch::Ps => None,
    }
}

impl ProcessFinder {
    /// The step after running `search`; `stdout` is its output when it ran
    /// and (for `pgrep`) succeeded. The full name is tried with `pgrep`
    /// first, then the truncated name, then `ps aux`.
    pub fn next_unix_search(search: UnixSearch, stdout: Option<&str>) -> (r: UnixSearchStep)
        ensures
            match stdout {
                Some(out) if unix_search_pid(search, out@) is Some => r matches UnixSearchStep::Found(
                    pid,
                    msg,
                ) && pid == unix_search_pid(search, out@)->0 && msg@ == match unix_search_name(
                    search,
                ) {
                    Some(n) => "Found Warframe process: "@ + n + " (PID: "@ + decimal(pid as nat)
                        + ")"@,
                    None => "Found Warframe process (PID: "@ + decimal(pid as nat) + ")"@,
                },
                _ => match unix_search_after(search) {
                    Some(next) => r == UnixSearchStep::Run(next),
                    None => r is NotFound,
                },
            },
    {
        match stdout {
            Some(out) => {
                let found = match search {
                    UnixSearch::Ps => Self::pid_from_ps(out),
                    _ => Self::pid_from_pgrep(out),
                };
                match found {
                    Some(pid) => {
                        let name = match search {
                            UnixSearch::PgrepFull => Some(IMAGE_NAME),
                            UnixSearch::PgrepTruncated => Some(TRUNCATED_IMAGE_NAME),
                            UnixSearch::Ps => None,
                        };
                        return UnixSearchStep::Found(pid, Self::found_message(name, pid));
                    },
                    None => {},
                }
            },
            None => {},
        }
        match search {
            UnixSearch::PgrepFull => UnixSearchStep::Run(UnixSearch::PgrepTruncated),
            UnixSearch::PgrepTruncated => UnixSearchStep::Run(UnixSearch::Ps),
            UnixSearch::Ps => UnixSearchStep::NotFound,
        }
    }
}

} // verus!
