//! The raw-command source: the query itself as a shell command line.
use std::collections::VecDeque;
use vstd::prelude::*;

use crate::suggestion::{
    cands_view, launch_words, launches, merge, place_exec, Action, Candidate, CandidateView,
    MatchLevel, Offer, Suggestion, SuggestionModule,
};
use crate::text::{chars_of, slice_of, split_words, string_of, words};

verus! {

/// A command line to run as it stands.
#[derive(Clone, Debug)]
pub struct CommandSuggestion {
    pub cmd: String,
}

impl CommandSuggestion {
    /// The suggestion to run `cmd`.
    pub fn with_cmd(cmd: &str) -> (r: Self)
        ensures
            r.cmd@ == cmd@,
    {
        CommandSuggestion { cmd: cmd.to_owned() }
    }

    /// Starts the first word of the command line with the other words as
    /// arguments.
    pub fn action(&self) -> (r: Action)
        ensures
            launches(r, words(self.cmd@)),
    {
        let w = split_words(&chars_of(self.cmd.as_str()));
        launch_words(&w)
    }
}

impl Suggestion for CommandSuggestion {
    /// A command line matches every query exactly.
    open spec fn level(&self, query: Seq<char>) -> MatchLevel {
        MatchLevel::Exact
    }

    fn matches(&self, query: &str) -> (r: MatchLevel) {
        MatchLevel::Exact
    }
}

/// The query begins with the escape `!`.
pub open spec fn is_escape(query: Seq<char>) -> bool {
    query.len() > 0 && query[0] == '!'
}

/// The command line that `query` asks to run: the text after `!` for an
/// escaped query, the query itself otherwise.
pub open spec fn command_text(query: Seq<char>) -> Seq<char> {
    if is_escape(query) {
        query.drop_first()
    } else {
        query
    }
}

/// What the raw-command source offers for `query`: one exact candidate that
/// runs `command_text(query)`.
pub open spec fn command_offers(query: Seq<char>) -> Seq<Offer> {
    seq![(MatchLevel::Exact, CandidateView::Command(command_text(query)))]
}

/// The source of the raw-command candidate: every query is offered as a
/// command line, exactly; a query that begins with `!` without the `!`.
/// Being exact, the candidate goes to the front of the sequence, so the
/// caller that wants an escaped command in front of all runs this source last.
pub struct CommandModule;

impl SuggestionModule for CommandModule {
    open spec fn offers(&self, query: Seq<char>) -> Seq<Offer> {
        command_offers(query)
    }

    fn get_matches(&self, query: &str, v: &mut VecDeque<Candidate>) {
        let q = chars_of(query);
        let ghost before = cands_view(v@);
        let ghost offers = self.offers(query@);
        let cmd = if q.len() > 0 && q[0] == '!' {
            let rest = slice_of(&q, 1, q.len());
            assert(rest@ =~= q@.drop_first());
            string_of(&rest)
        } else {
            string_of(&q)
        };
        place_exec(v, MatchLevel::Exact, Candidate::Command(CommandSuggestion { cmd }));
        assert(offers.drop_last() =~= Seq::<Offer>::empty());
        assert(merge(before, offers.drop_last()) == before);
    }
}

} // verus!
