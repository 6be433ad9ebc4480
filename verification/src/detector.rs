//! Continuation detection: does the assistant's latest reply carry one of the
//! fixed continuation cues? A heuristic by design; the contract pins it to
//! exactly the phrase list below over the case-folded reply.

use vstd::prelude::*;
use vstd::string::*;
use crate::shims::{lower_of, to_lowercase};
use crate::textutil::{contains_seq, contains_sub};

verus! {

/// Whether the case-folded reply carries one of the continuation phrases.
pub open spec fn signals_continuation(reply: Seq<char>) -> bool {
    let low = lower_of(reply);
    ||| contains_seq(low, "let me also"@)
    ||| contains_seq(low, "i'll also"@)
    ||| contains_seq(low, "next, i'll"@)
    ||| contains_seq(low, "additionally"@)
    ||| contains_seq(low, "i need to"@)
    ||| contains_seq(low, "i should also"@)
    ||| contains_seq(low, "now i'll"@)
    ||| contains_seq(low, "then i'll"@)
}

/// Detects continuation signals in agent responses.
pub struct ContinuationDetector;

impl ContinuationDetector {
    pub fn should_continue(&self, response: &str) -> (r: bool)
        ensures
            r == signals_continuation(response@),
    {
        let low = to_lowercase(response);
        let l = low.as_str();
        contains_sub(l, "let me also") || contains_sub(l, "i'll also") || contains_sub(
            l,
            "next, i'll",
        ) || contains_sub(l, "additionally") || contains_sub(l, "i need to") || contains_sub(
            l,
            "i should also",
        ) || contains_sub(l, "now i'll") || contains_sub(l, "then i'll")
    }
}

} // verus!
