//! What the memory search prints before and after it runs, and the scanner
//! it uses.

use vstd::prelude::*;
use crate::memory::{lemma_region_matches_sound, region_matches, MemoryScanner};
use crate::output::{colored, lines_view, match_report, Colors, OutputFormatter};
use crate::pattern::{
    bytes_as_chars, extracted_text, has_both_markers, is_text_byte, lemma_extracted_text_is_ascii,
    PatternMatcher, ACCOUNT_ID_MARKER,
};
use crate::text::{decimal, occurs_at, owned, push_decimal, starts_with};
use crate::types::{match_views, Match, MatchView};

verus! {

broadcast use vstd::string::group_string_axioms;

/// The report lines of a sequence of matches, one after the other.
pub open spec fn match_reports(colors: bool, verbose: bool, ms: Seq<MatchView>) -> Seq<Seq<char>>
    decreases ms.len(),
{
    if ms.len() == 0 {
        Seq::empty()
    } else {
        match_reports(colors, verbose, ms.drop_last()) + match_report(colors, verbose, ms.last())
    }
}

/// Scan the Warframe process memory for `?accountId=` / `&nonce=` matches.
pub struct SearchWorkflow;

impl SearchWorkflow {
    /// The scanner used on process memory: it looks for `?accountId=`.
    pub fn scanner() -> (s: MemoryScanner)
        ensures
            s.pattern_view() == PatternMatcher::PATTERN@,
    {
        MemoryScanner::new(&PatternMatcher::PATTERN)
    }

    /// The lines printed before scanning process `pid`.
    pub fn search_banner(formatter: &OutputFormatter, pid: u32) -> (lines: Vec<String>)
        ensures
            lines_view(lines@) == seq![
                colored(
                    formatter.colors_enabled,
                    Colors::YELLOW@,
                    "=== Running Process Memory (by region) ==="@,
                ),
                colored(
                    formatter.colors_enabled,
                    Colors::YELLOW@,
                    "Searching for '?accountId=' and '&nonce=' in Warframe process (PID "@
                        + decimal(pid as nat) + ")..."@,
                ),
            ],
    {
        let mut lines: Vec<String> = Vec::new();
        lines.push(formatter.colored_line(Colors::YELLOW, "=== Running Process Memory (by region) ==="));
        let mut message = owned("Searching for '?accountId=' and '&nonce=' in Warframe process (PID ");
        push_decimal(&mut message, pid as u64);
        message.append(")...");
        lines.push(formatter.colored_line(Colors::YELLOW, message.as_str()));
        assert(lines_view(lines@) =~= seq![lines@[0]@, lines@[1]@]);
        lines
    }

    /// The lines printed after the scan: that nothing was found, or how many
    /// matches there are followed by each match's report.
    pub fn result_lines(formatter: &OutputFormatter, matches: &[Match]) -> (lines: Vec<String>)
        ensures
            lines_view(lines@) == if matches@.len() == 0 {
                seq![
                    colored(
                        formatter.colors_enabled,
                        Colors::YELLOW@,
                        "No matches found in running process memory"@,
                    ),
                ]
            } else {
                seq![
                    colored(
                        formatter.colors_enabled,
                        Colors::GREEN@,
                        "Found "@ + decimal(matches@.len() as nat) + " occurrence(s):"@,
                    ),
                ] + match_reports(formatter.colors_enabled, formatter.verbose, match_views(matches@))
            },
    {
        let mut lines: Vec<String> = Vec::new();
        if matches.len() == 0 {
            lines.push(formatter.colored_line(Colors::YELLOW, "No matches found in running process memory"));
            assert(lines_view(lines@) =~= seq![lines@[0]@]);
            return lines;
        }
        let mut message = owned("Found ");
        push_decimal(&mut message, matches.len() as u64);
        message.append(" occurrence(s):");
        lines.push(formatter.colored_line(Colors::GREEN, message.as_str()));
        let ghost head = lines_view(lines@);
        assert(head =~= seq![lines@[0]@]);
        let mut i: usize = 0;
        while i < matches.len()
            invariant
                i <= matches@.len(),
                head.len() == 1,
                lines_view(lines@) == head + match_reports(
                    formatter.colors_enabled,
                    formatter.verbose,
                    match_views(matches@).take(i as int),
                ),
            decreases matches@.len() - i,
        {
            let more = formatter.match_lines(&matches[i]);
            let ghost before = lines_view(lines@);
            let mut j: usize = 0;
            while j < more.len()
                invariant
                    j <= more@.len(),
                    lines_view(lines@) == before + lines_view(more@).take(j as int),
                decreases more@.len() - j,
            {
                let ghost prev = lines@;
                let line = owned(more[j].as_str());
                assert(line@ == lines_view(more@)[j as int]);
                lines.push(line);
                assert(lines_view(lines@) =~= lines_view(prev).push(line@));
                assert(lines_view(lines@) =~= before + lines_view(more@).take(j + 1));
                j = j + 1;
            }
            assert(lines_view(more@).take(more@.len() as int) =~= lines_view(more@));
            assert(match_views(matches@).take(i + 1).drop_last() =~= match_views(matches@).take(i as int));
            assert(match_views(matches@).take(i + 1).last() == matches@[i as int]@);
            assert(lines_view(lines@) =~= head + match_reports(
                formatter.colors_enabled,
                formatter.verbose,
                match_views(matches@).take(i + 1),
            ));
            i = i + 1;
        }
        assert(match_views(matches@).take(matches@.len() as int) =~= match_views(matches@));
        lines
    }
}

/// Every match the process-memory scanner records starts with
/// `?accountId=`, names `&nonce=` as well, and lies where the pattern occurs.
pub proof fn lemma_scanner_matches_start_with_marker(
    data: Seq<u8>,
    base: usize,
    region: Seq<char>,
    stop: bool,
)
    ensures
        forall|k: int|
            0 <= k < region_matches(data, PatternMatcher::PATTERN@, base, region, stop, 0).len()
                ==> {
                let m = #[trigger] region_matches(
                    data,
                    PatternMatcher::PATTERN@,
                    base,
                    region,
                    stop,
                    0,
                )[k];
                &&& starts_with(m.string, ACCOUNT_ID_MARKER@)
                &&& has_both_markers(m.string)
            },
{
    let pat = PatternMatcher::PATTERN@;
    reveal_strlit("?accountId=");
    assert(bytes_as_chars(pat) =~= ACCOUNT_ID_MARKER@);
    assert forall|i: int| 0 <= i < pat.len() implies is_text_byte(#[trigger] pat[i]) by {}
    lemma_region_matches_sound(data, pat, base, region, stop, 0);
    let ms = region_matches(data, pat, base, region, stop, 0);
    assert forall|k: int| 0 <= k < ms.len() implies {
        let m = #[trigger] ms[k];
        &&& starts_with(m.string, ACCOUNT_ID_MARKER@)
        &&& has_both_markers(m.string)
    } by {
        let m = ms[k];
        let p = choose|p: int|
            0 <= p && occurs_at(data, pat, p) && m.address == Some((base + p) as usize) && m.string
                == extracted_text(data, pat.len() as int, p);
        lemma_extracted_text_is_ascii(data, pat, p);
    }
}

} // verus!
