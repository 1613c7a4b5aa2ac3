//! Scanning process memory for the auth string: finding every occurrence of
//! the pattern in a region, keeping the complete ones, and deciding which
//! regions to read and when to stop.

use vstd::prelude::*;
use crate::pattern::{
    complete_pair, extracted_text, has_both_markers, PatternMatcher,
};
use crate::text::{
    bytes_find_from, bytes_to_vec, first_occurrence_from, hex_lower, lemma_first_occurrence, occurs_at,
    owned, push_hex,
};
use crate::types::{match_views, Match, MatchView};

verus! {

broadcast use vstd::string::group_string_axioms;

/// Bytes of context kept before a match.
pub const CONTEXT_BYTES_BEFORE: usize = 50;

/// Bytes of context kept after the pattern.
pub const CONTEXT_BYTES_AFTER: usize = 100;

/// Regions larger than this (100 MiB) are skipped.
pub const MAX_REGION_SIZE: usize = 104857600;

/// The bytes around a match at `pos`: up to 50 before it and up to 100 after
/// the pattern.
pub open spec fn context_window(data: Seq<u8>, pos: int, pattern_len: int) -> Seq<u8> {
    let start = if pos >= CONTEXT_BYTES_BEFORE {
        pos - CONTEXT_BYTES_BEFORE
    } else {
        0
    };
    let end = if pos + pattern_len + CONTEXT_BYTES_AFTER <= data.len() {
        pos + pattern_len + CONTEXT_BYTES_AFTER
    } else {
        data.len() as int
    };
    data.subrange(start, end)
}

/// The match recorded for an occurrence of the pattern at `pos`, if its text
/// names both markers.
pub open spec fn match_at(
    data: Seq<u8>,
    pattern: Seq<u8>,
    pos: int,
    base: usize,
    region: Seq<char>,
) -> Option<MatchView> {
    let text = extracted_text(data, pattern.len() as int, pos);
    if has_both_markers(text) {
        Some(
            MatchView {
                string: text,
                address: Some((base + pos) as usize),
                region: Some(region),
                context: context_window(data, pos, pattern.len() as int),
            },
        )
    } else {
        None
    }
}

/// The matches found in `data` from offset `from` on, in order; with `stop`,
/// the scan ends after the first match whose text yields both an account id
/// and a nonce.
pub open spec fn region_matches(
    data: Seq<u8>,
    pattern: Seq<u8>,
    base: usize,
    region: Seq<char>,
    stop: bool,
    from: int,
) -> Seq<MatchView>
    decreases data.len() + 1 - from,
{
    match first_occurrence_from(data, pattern, from) {
        None => Seq::empty(),
        Some(p) => if p < from || p > data.len() {
            Seq::empty()
        } else {
            match match_at(data, pattern, p, base, region) {
                None => region_matches(data, pattern, base, region, stop, p + 1),
                Some(m) => if stop && complete_pair(m.string) is Some {
                    seq![m]
                } else {
                    seq![m] + region_matches(data, pattern, base, region, stop, p + 1)
                },
            }
        },
    }
}

/// Some match of `ms` yields both an account id and a nonce.
pub open spec fn has_complete(ms: Seq<MatchView>) -> bool {
    exists|i: int| 0 <= i < ms.len() && complete_pair(#[trigger] ms[i].string) is Some
}

/// `ms` up to and including its first match whose text yields both an
/// account id and a nonce; all of `ms` when none does.
pub open spec fn upto_first_complete(ms: Seq<MatchView>) -> Seq<MatchView>
    decreases ms.len(),
{
    if ms.len() == 0 {
        ms
    } else if complete_pair(ms[0].string) is Some {
        seq![ms[0]]
    } else {
        seq![ms[0]] + upto_first_complete(ms.drop_first())
    }
}

/// Cutting a list at its first complete match keeps a prefix of it: every
/// match before the last of the prefix is incomplete, the prefix ends at a
/// complete match when it is shorter than the list or when the list has one,
/// and it is the whole list when no match is complete.
pub proof fn lemma_upto_first_complete(ms: Seq<MatchView>)
    ensures
        upto_first_complete(ms).len() <= ms.len(),
        upto_first_complete(ms) == ms.subrange(0, upto_first_complete(ms).len() as int),
        forall|k: int|
            0 <= k < upto_first_complete(ms).len() - 1 ==> complete_pair(
                #[trigger] ms[k].string,
            ) is None,
        has_complete(ms) ==> upto_first_complete(ms).len() > 0 && complete_pair(
            upto_first_complete(ms).last().string,
        ) is Some,
        !has_complete(ms) ==> upto_first_complete(ms) == ms,
    decreases ms.len(),
{
    if ms.len() > 0 {
        let rest = ms.drop_first();
        lemma_upto_first_complete(rest);
        if complete_pair(ms[0].string) is None {
            let u = upto_first_complete(ms);
            let ur = upto_first_complete(rest);
            assert(u == seq![ms[0]] + ur);
            assert(u =~= ms.subrange(0, u.len() as int));
            assert forall|k: int| 0 <= k < u.len() - 1 implies complete_pair(
                #[trigger] ms[k].string,
            ) is None by {
                if k > 0 {
                    assert(ms[k] == rest[k - 1]);
                }
            }
            if has_complete(ms) {
                let i = choose|i: int| 0 <= i < ms.len() && complete_pair(#[trigger] ms[i].string) is Some;
                assert(i > 0);
                assert(rest[i - 1] == ms[i]);
                assert(has_complete(rest));
                assert(u.last() == ur.last());
            }
            if !has_complete(ms) {
                assert forall|i: int| 0 <= i < rest.len() implies complete_pair(
                    #[trigger] rest[i].string,
                ) is None by {
                    assert(rest[i] == ms[i + 1]);
                }
                assert(!has_complete(rest));
                assert(u =~= ms);
            }
        } else {
            assert(upto_first_complete(ms) =~= ms.subrange(0, 1));
        }
    } else {
        assert(ms.subrange(0, 0) =~= ms);
    }
}

/// Scanning one region with the early stop gives exactly the full scan of
/// that region cut at its first complete match.
pub proof fn lemma_stopping_scan_is_cut_full_scan(
    data: Seq<u8>,
    pattern: Seq<u8>,
    base: usize,
    region: Seq<char>,
    from: int,
)
    requires
        0 <= from,
    ensures
        region_matches(data, pattern, base, region, true, from) == upto_first_complete(
            region_matches(data, pattern, base, region, false, from),
        ),
    decreases data.len() + 1 - from,
{
    let full = region_matches(data, pattern, base, region, false, from);
    match first_occurrence_from(data, pattern, from) {
        None => {},
        Some(p) => {
            if p < from || p > data.len() {
            } else {
                lemma_stopping_scan_is_cut_full_scan(data, pattern, base, region, p + 1);
                let rest = region_matches(data, pattern, base, region, false, p + 1);
                match match_at(data, pattern, p, base, region) {
                    None => {},
                    Some(m) => {
                        assert(full == seq![m] + rest);
                        assert(full[0] == m);
                        assert(full.drop_first() =~= rest);
                    },
                }
            }
        },
    }
}

/// Over several regions: once the matches gathered so far hold no complete
/// match, cutting them together with the next region's full scan at the
/// first complete match keeps them and cuts only the new region's part.
pub proof fn lemma_upto_first_complete_append(before: Seq<MatchView>, next: Seq<MatchView>)
    requires
        !has_complete(before),
    ensures
        upto_first_complete(before + next) == before + upto_first_complete(next),
    decreases before.len(),
{
    if before.len() > 0 {
        let rest = before.drop_first();
        assert forall|i: int| 0 <= i < rest.len() implies complete_pair(
            #[trigger] rest[i].string,
        ) is None by {
            assert(rest[i] == before[i + 1]);
        }
        lemma_upto_first_complete_append(rest, next);
        assert((before + next)[0] == before[0]);
        assert(complete_pair(before[0].string) is None);
        assert((before + next).drop_first() =~= rest + next);
        assert(before + upto_first_complete(next) =~= seq![before[0]] + (rest + upto_first_complete(next)));
    } else {
        assert(before + next =~= next);
        assert(before + upto_first_complete(next) =~= upto_first_complete(next));
    }
}

/// Handles process memory scanning.
pub struct MemoryScanner {
    pattern: &'static [u8],
}

impl MemoryScanner {
    /// The byte pattern this scanner looks for.
    pub closed spec fn pattern_view(&self) -> Seq<u8> {
        self.pattern@
    }

    /// A scanner for `pattern`.
    pub fn new(pattern: &'static [u8]) -> (s: Self)
        ensures
            s.pattern_view() == pattern@,
    {
        MemoryScanner { pattern }
    }

    /// Context bytes around a position.
    pub fn extract_context(&self, data: &[u8], pos: usize) -> (c: Vec<u8>)
        requires
            pos <= data@.len() + CONTEXT_BYTES_BEFORE,
        ensures
            c@ == context_window(data@, pos as int, self.pattern_view().len() as int),
    {
        let start = if pos >= CONTEXT_BYTES_BEFORE {
            pos - CONTEXT_BYTES_BEFORE
        } else {
            0
        };
        let room = if pos <= data.len() {
            data.len() - pos
        } else {
            0
        };
        let end = if room >= self.pattern.len() && room - self.pattern.len() >= CONTEXT_BYTES_AFTER {
            pos + self.pattern.len() + CONTEXT_BYTES_AFTER
        } else {
            data.len()
        };
        bytes_to_vec(&data[start..end])
    }

    /// The match for an occurrence of the pattern at `pos`, if its text has
    /// both `?accountId=` and `&nonce=`.
    pub fn process_match(&self, data: &[u8], pos: usize, base_address: usize, region_info: &str) -> (r:
        Option<Match>)
        requires
            pos + self.pattern_view().len() <= data@.len(),
            base_address + pos <= usize::MAX,
        ensures
            match r {
                Some(m) => match_at(data@, self.pattern_view(), pos as int, base_address, region_info@)
                    == Some(m@),
                None => match_at(
                    data@,
                    self.pattern_view(),
                    pos as int,
                    base_address,
                    region_info@,
                ) is None,
            },
    {
        let context = self.extract_context(data, pos);
        let full_string = PatternMatcher::extract_string_from_data(data, self.pattern, pos);
        if !PatternMatcher::has_both_patterns(full_string.as_str()) {
            return None;
        }
        Some(Match::from_process_memory(full_string, base_address + pos, owned(region_info), context))
    }

    /// Every match in `data`, in order; with `stop_at_first_complete` the
    /// search ends at the first match that yields both an account id and a
    /// nonce.
    pub fn search_in_data(
        &self,
        data: &[u8],
        base_address: usize,
        region_info: &str,
        stop_at_first_complete: bool,
    ) -> (ms: Vec<Match>)
        requires
            self.pattern_view().len() > 0,
            base_address + data@.len() <= usize::MAX,
        ensures
            match_views(ms@) == region_matches(
                data@,
                self.pattern_view(),
                base_address,
                region_info@,
                stop_at_first_complete,
                0,
            ),
    {
        let ghost pat = self.pattern_view();
        let ghost whole = region_matches(data@, pat, base_address, region_info@, stop_at_first_complete, 0);
        let data_len = data.len();
        let mut matches: Vec<Match> = Vec::new();
        let mut offset: usize = 0;
        loop
            invariant
                pat == self.pattern_view(),
                pat.len() > 0,
                data_len == data@.len(),
                base_address + data@.len() <= usize::MAX,
                offset <= data@.len(),
                whole == region_matches(data@, pat, base_address, region_info@, stop_at_first_complete, 0),
                match_views(matches@) + region_matches(
                    data@,
                    pat,
                    base_address,
                    region_info@,
                    stop_at_first_complete,
                    offset as int,
                ) == whole,
            ensures
                match_views(matches@) == whole,
            decreases data@.len() + 1 - offset,
        {
            proof {
                lemma_first_occurrence(data@, pat, offset as int);
            }
            match bytes_find_from(data, self.pattern, offset) {
                None => {
                    assert(match_views(matches@) =~= whole);
                    break;
                },
                Some(pos) => {
                    let ghost rest = region_matches(
                        data@,
                        pat,
                        base_address,
                        region_info@,
                        stop_at_first_complete,
                        pos + 1,
                    );
                    match self.process_match(data, pos, base_address, region_info) {
                        Some(match_data) => {
                            let ghost before = matches@;
                            let ghost mv = match_data@;
                            let complete = if stop_at_first_complete {
                                let (account_id, nonce) = PatternMatcher::extract_account_id_and_nonce(
                                    match_data.string.as_str(),
                                );
                                account_id.is_some() && nonce.is_some()
                            } else {
                                false
                            };
                            matches.push(match_data);
                            assert(match_views(matches@) =~= match_views(before).push(mv));
                            if complete {
                                assert(match_views(matches@) =~= whole);
                                return matches;
                            }
                            assert(match_views(matches@) + rest =~= match_views(before) + (seq![mv] + rest));
                        },
                        None => {},
                    }
                    offset = pos + 1;
                },
            }
        }
        matches
    }
}

/// The matches gathered over a run of memory regions, and whether the run may
/// stop.
pub struct RegionScan {
    matches: Vec<Match>,
    stop_at_first_complete: bool,
    scanned: Ghost<Seq<MatchView>>,
}

impl RegionScan {
    /// What has been found so far.
    pub closed spec fn found(&self) -> Seq<MatchView> {
        match_views(self.matches@)
    }

    /// Whether the scan stops at the first complete match.
    pub closed spec fn stops_early(&self) -> bool {
        self.stop_at_first_complete
    }

    /// Everything a scan without the early stop would have found in the
    /// regions added so far.
    pub closed spec fn scanned(&self) -> Seq<MatchView> {
        self.scanned@
    }

    /// What is found is what was scanned, cut at the first complete match
    /// when the scan stops early.
    pub open spec fn wf(&self) -> bool {
        if self.stops_early() {
            self.found() == upto_first_complete(self.scanned())
        } else {
            self.found() == self.scanned()
        }
    }

    /// The scan stops early and has found a complete match: no more regions
    /// are read.
    pub open spec fn finished(&self) -> bool {
        self.stops_early() && has_complete(self.found())
    }

    /// An empty scan.
    pub fn new(stop_at_first_complete: bool) -> (s: Self)
        ensures
            s.found() == Seq::<MatchView>::empty(),
            s.scanned() == Seq::<MatchView>::empty(),
            s.stops_early() == stop_at_first_complete,
            s.wf(),
    {
        let s = RegionScan { matches: Vec::new(), stop_at_first_complete, scanned: Ghost(Seq::empty()) };
        assert(s.found() =~= Seq::<MatchView>::empty());
        s
    }

    /// Adds the matches of one region; returns `true` when the scan stops
    /// early and the last match so far yields both an account id and a nonce.
    pub fn add_region(&mut self, scanner: &MemoryScanner, data: &[u8], base_address: usize, region_info: &str) -> (done: bool)
        requires
            scanner.pattern_view().len() > 0,
            base_address + data@.len() <= usize::MAX,
            old(self).wf(),
            !old(self).finished(),
        ensures
            final(self).stops_early() == old(self).stops_early(),
            final(self).found() == old(self).found() + region_matches(
                data@,
                scanner.pattern_view(),
                base_address,
                region_info@,
                old(self).stops_early(),
                0,
            ),
            final(self).scanned() == old(self).scanned() + region_matches(
                data@,
                scanner.pattern_view(),
                base_address,
                region_info@,
                false,
                0,
            ),
            final(self).wf(),
            done == (old(self).stops_early() && final(self).found().len() > 0 && complete_pair(
                final(self).found().last().string,
            ) is Some),
            done == final(self).finished(),
    {
        let ghost pat = scanner.pattern_view();
        let ghost full = region_matches(data@, pat, base_address, region_info@, false, 0);
        let ghost old_scanned = self.scanned@;
        let mut region_matches = scanner.search_in_data(data, base_address, region_info, self.stop_at_first_complete);
        let ghost before = self.matches@;
        let ghost added = region_matches@;
        self.matches.append(&mut region_matches);
        self.scanned = Ghost(old_scanned + full);
        assert(match_views(self.matches@) =~= match_views(before) + match_views(added));
        proof {
            lemma_upto_first_complete(old_scanned);
            lemma_upto_first_complete(match_views(self.matches@));
            if self.stop_at_first_complete {
                lemma_stopping_scan_is_cut_full_scan(data@, pat, base_address, region_info@, 0);
                assert(!has_complete(old_scanned));
                lemma_upto_first_complete_append(old_scanned, full);
                lemma_upto_first_complete(old_scanned + full);
            }
        }
        if self.stop_at_first_complete && self.matches.len() > 0 {
            let last = self.matches.len() - 1;
            let (account_id, nonce) = PatternMatcher::extract_account_id_and_nonce(
                self.matches[last].string.as_str(),
            );
            proof {
                let f = match_views(self.matches@);
                assert(f[last as int] == f.last());
            }
            return account_id.is_some() && nonce.is_some();
        }
        false
    }

    /// The matches found.
    pub fn into_matches(self) -> (ms: Vec<Match>)
        ensures
            match_views(ms@) == self.found(),
    {
        self.matches
    }
}

/// Once a list holds a complete match, what follows it does not change where
/// it is cut.
pub proof fn lemma_upto_first_complete_extend(before: Seq<MatchView>, after: Seq<MatchView>)
    requires
        has_complete(before),
    ensures
        upto_first_complete(before + after) == upto_first_complete(before),
    decreases before.len(),
{
    let whole = before + after;
    assert(whole[0] == before[0]);
    if complete_pair(before[0].string) is None {
        let i = choose|i: int| 0 <= i < before.len() && complete_pair(#[trigger] before[i].string) is Some;
        assert(before.drop_first()[i - 1] == before[i]);
        lemma_upto_first_complete_extend(before.drop_first(), after);
        assert(whole.drop_first() =~= before.drop_first() + after);
    }
}

/// A run over regions that stops early gives the run without the early stop
/// cut at its first complete match: whether it read every region or ended
/// at the first complete match, what it found is the cut of everything the
/// full run finds in all the regions, `all`, of which it scanned a prefix.
pub proof fn lemma_stopping_run_is_cut_full_run(scan: RegionScan, all: Seq<MatchView>)
    requires
        scan.wf(),
        scan.stops_early(),
        scan.finished() || scan.scanned() == all,
        all.subrange(0, scan.scanned().len() as int) == scan.scanned(),
        scan.scanned().len() <= all.len(),
    ensures
        scan.found() == upto_first_complete(all),
{
    let s = scan.scanned();
    if scan.finished() {
        lemma_upto_first_complete(s);
        if !has_complete(s) {
            assert(upto_first_complete(s) == s);
        }
        assert(has_complete(s));
        assert(all =~= s + all.subrange(s.len() as int, all.len() as int));
        lemma_upto_first_complete_extend(s, all.subrange(s.len() as int, all.len() as int));
    }
}

/// `MEM_COMMIT`: committed pages.
pub const MEM_COMMIT: u32 = 0x1000;

/// `PAGE_READONLY`.
pub const PAGE_READONLY: u32 = 0x02;

/// `PAGE_READWRITE`.
pub const PAGE_READWRITE: u32 = 0x04;

/// `PAGE_EXECUTE_READ`.
pub const PAGE_EXECUTE_READ: u32 = 0x20;

/// `PAGE_EXECUTE_READWRITE`.
pub const PAGE_EXECUTE_READWRITE: u32 = 0x40;

/// A mapping from `/proc/<pid>/maps` is read when it is readable, not empty
/// and at most 100 MiB.
pub fn linux_region_wanted(readable: bool, start: u64, end: u64) -> (b: bool)
    requires
        start <= end,
    ensures
        b == (readable && end - start != 0 && end - start <= MAX_REGION_SIZE),
{
    if !readable {
        return false;
    }
    let size = end - start;
    size != 0 && size <= MAX_REGION_SIZE as u64
}

/// A Windows region is read when it is committed, readable (read-only,
/// read-write, execute-read or execute-read-write) and under 100 MiB.
pub fn windows_region_wanted(state: u32, protect: u32, region_size: usize) -> (b: bool)
    ensures
        b == (state == MEM_COMMIT && (protect == PAGE_READONLY || protect == PAGE_READWRITE
            || protect == PAGE_EXECUTE_READ || protect == PAGE_EXECUTE_READWRITE) && region_size
            < MAX_REGION_SIZE),
{
    state == MEM_COMMIT && (protect == PAGE_READONLY || protect == PAGE_READWRITE || protect
        == PAGE_EXECUTE_READ || protect == PAGE_EXECUTE_READWRITE) && region_size < MAX_REGION_SIZE
}

/// The label of a Linux mapping: `<start>-<end>` in lower-case hex.
pub fn linux_region_label(start: u64, end: u64) -> (s: String)
    ensures
        s@ == hex_lower(start as nat) + "-"@ + hex_lower(end as nat),
{
    let mut s = String::new();
    push_hex(&mut s, start);
    s.append("-");
    push_hex(&mut s, end);
    s
}

/// The label of a Windows region: `0x<base>-0x<base + size>` in lower-case
/// hex.
pub fn windows_region_label(base: usize, size: usize) -> (s: String)
    requires
        base + size <= usize::MAX,
    ensures
        s@ == "0x"@ + hex_lower(base as nat) + "-0x"@ + hex_lower((base + size) as nat),
{
    let mut s = owned("0x");
    push_hex(&mut s, base as u64);
    s.append("-0x");
    push_hex(&mut s, (base + size) as u64);
    s
}

/// Every recorded match lies at an occurrence of the pattern at or after
/// `from`: its address is the base plus that offset, its text is the text
/// extracted there and names both `?accountId=` and `&nonce=`, and it carries
/// the region's label. When the scan stops early only the last match can
/// yield both an account id and a nonce.
pub proof fn lemma_region_matches_sound(
    data: Seq<u8>,
    pattern: Seq<u8>,
    base: usize,
    region: Seq<char>,
    stop: bool,
    from: int,
)
    requires
        0 <= from,
        pattern.len() > 0,
    ensures
        forall|k: int|
            0 <= k < region_matches(data, pattern, base, region, stop, from).len() ==> {
                let m = #[trigger] region_matches(data, pattern, base, region, stop, from)[k];
                &&& has_both_markers(m.string)
                &&& m.region == Some(region)
                &&& exists|p: int|
                    from <= p && occurs_at(data, pattern, p) && m.address == Some((base + p) as usize)
                        && m.string == extracted_text(data, pattern.len() as int, p)
            },
        stop ==> forall|k: int|
            0 <= k < region_matches(data, pattern, base, region, stop, from).len() - 1
                ==> complete_pair(
                #[trigger] region_matches(data, pattern, base, region, stop, from)[k].string,
            ) is None,
    decreases data.len() + 1 - from,
{
    lemma_first_occurrence(data, pattern, from);
    let ms = region_matches(data, pattern, base, region, stop, from);
    match first_occurrence_from(data, pattern, from) {
        None => {},
        Some(p) => {
            if p < from || p > data.len() {
            } else {
                lemma_region_matches_sound(data, pattern, base, region, stop, p + 1);
                let rest = region_matches(data, pattern, base, region, stop, p + 1);
                match match_at(data, pattern, p, base, region) {
                    None => {
                        assert(ms == rest);
                        assert forall|k: int| 0 <= k < ms.len() implies {
                            let m = #[trigger] ms[k];
                            &&& has_both_markers(m.string)
                            &&& m.region == Some(region)
                            &&& exists|q: int|
                                from <= q && occurs_at(data, pattern, q) && m.address == Some(
                                    (base + q) as usize,
                                ) && m.string == extracted_text(data, pattern.len() as int, q)
                        } by {
                            assert(rest[k] == ms[k]);
                        }
                    },
                    Some(m0) => {
                        if stop && complete_pair(m0.string) is Some {
                            assert(ms == seq![m0]);
                            assert forall|k: int| 0 <= k < ms.len() implies {
                                let m = #[trigger] ms[k];
                                &&& has_both_markers(m.string)
                                &&& m.region == Some(region)
                                &&& exists|q: int|
                                    from <= q && occurs_at(data, pattern, q) && m.address == Some(
                                        (base + q) as usize,
                                    ) && m.string == extracted_text(data, pattern.len() as int, q)
                            } by {
                                assert(ms[k] == m0);
                                assert(occurs_at(data, pattern, p));
                            }
                        } else {
                            assert(ms == seq![m0] + rest);
                            assert forall|k: int| 0 <= k < ms.len() implies {
                                let m = #[trigger] ms[k];
                                &&& has_both_markers(m.string)
                                &&& m.region == Some(region)
                                &&& exists|q: int|
                                    from <= q && occurs_at(data, pattern, q) && m.address == Some(
                                        (base + q) as usize,
                                    ) && m.string == extracted_text(data, pattern.len() as int, q)
                            } by {
                                if k == 0 {
                                    assert(ms[k] == m0);
                                    assert(occurs_at(data, pattern, p));
                                } else {
                                    assert(ms[k] == rest[k - 1]);
                                }
                            }
                            if stop {
                                assert forall|k: int| 0 <= k < ms.len() - 1 implies complete_pair(
                                    #[trigger] ms[k].string,
                                ) is None by {
                                    if k > 0 {
                                        assert(ms[k] == rest[k - 1]);
                                    }
                                }
                            }
                        }
                    },
                }
            }
        },
    }
}

} // verus!
