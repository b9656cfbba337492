//! The error type: a chain of human-readable reasons, most specific first.

use vstd::prelude::*;
use crate::strops::{join_sep, spec_join_sep};

verus! {

/// A build error. Reasons accumulate from the most specific cause outward,
/// so displaying them in order reads from detail to context.
#[derive(Debug)]
pub struct Error {
    reasons: Vec<String>,
}

impl View for Error {
    type V = Seq<Seq<char>>;

    closed spec fn view(&self) -> Seq<Seq<char>> {
        self.reasons.deep_view()
    }
}

impl Error {
    /// A new error with a single reason.
    pub fn with_reason(reason: &str) -> (e: Error)
        ensures
            e@ =~= seq![reason@],
    {
        let mut reasons: Vec<String> = Vec::new();
        reasons.push(reason.to_owned());
        Error { reasons }
    }

    /// The same error with a broader reason appended after the others.
    pub fn add(self, reason: String) -> (e: Error)
        ensures
            e@ =~= self@.push(reason@),
    {
        let mut reasons = self.reasons;
        reasons.push(reason);
        Error { reasons }
    }

    /// The reasons, most specific first.
    pub fn reasons(&self) -> (r: &Vec<String>)
        ensures
            r.deep_view() == self@,
    {
        &self.reasons
    }

    /// Every reason on a line of its own, most specific first.
    pub fn message(&self) -> (m: String)
        ensures
            m@ == spec_join_sep(self@, "\n"@),
    {
        join_sep(&self.reasons, "\n")
    }
}

} // verus!
