//! The help entry.
use vstd::prelude::*;

use crate::suggestion::{same_text, Action, MatchLevel, Suggestion};

verus! {

/// The entry that lists what the launcher understands.
#[derive(Clone, Copy, Debug)]
pub struct HelpSuggestion;

impl HelpSuggestion {
    /// Reading the help needs nothing more once committed to.
    pub fn action(&self) -> (r: Action)
        ensures
            r is Close,
    {
        Action::Close
    }
}

impl Suggestion for HelpSuggestion {
    /// Exact for `?` and `help`; no match otherwise.
    open spec fn level(&self, query: Seq<char>) -> MatchLevel {
        if query == "?"@ || query == "help"@ {
            MatchLevel::Exact
        } else {
            MatchLevel::NoMatch
        }
    }

    fn matches(&self, query: &str) -> (r: MatchLevel) {
        if same_text(query, "?") || same_text(query, "help") {
            MatchLevel::Exact
        } else {
            MatchLevel::NoMatch
        }
    }
}

} // verus!
