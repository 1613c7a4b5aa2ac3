//! A match found in process memory: the text, where it was, and the bytes
//! around it.

use vstd::prelude::*;
use crate::text::opt_chars;

verus! {

/// One `?accountId=…&nonce=…` hit from a memory region.
#[derive(Debug, Clone)]
pub struct Match {
    /// The full matched text (e.g. `?accountId=...&nonce=...`).
    pub string: String,
    /// Address of the first byte of the match.
    pub address: Option<usize>,
    /// The memory region it was found in.
    pub region: Option<String>,
    /// Bytes around the match.
    pub context: Vec<u8>,
}

/// The mathematical content of a [`Match`].
pub ghost struct MatchView {
    pub string: Seq<char>,
    pub address: Option<usize>,
    pub region: Option<Seq<char>>,
    pub context: Seq<u8>,
}

impl View for Match {
    type V = MatchView;

    open spec fn view(&self) -> MatchView {
        MatchView {
            string: self.string@,
            address: self.address,
            region: opt_chars(self.region),
            context: self.context@,
        }
    }
}

/// The views of a sequence of matches.
pub open spec fn match_views(ms: Seq<Match>) -> Seq<MatchView> {
    ms.map_values(|m: Match| m@)
}

impl Match {
    /// A match read from process memory.
    pub fn from_process_memory(string: String, address: usize, region: String, context: Vec<u8>) -> (m: Self)
        ensures
            m@ == (MatchView {
                string: string@,
                address: Some(address),
                region: Some(region@),
                context: context@,
            }),
    {
        Match { string, address: Some(address), region: Some(region), context }
    }
}

} // verus!
