//! Built-in commands, reached with a query that begins with `/`.
use std::collections::VecDeque;
use vstd::prelude::*;

use crate::suggestion::{
    cands_view, lemma_merge_step, merge, place_exec, Action, Candidate, CandidateView,
    LanchMessage, Layout, MatchLevel, Offer, Suggestion, SuggestionModule,
};
use crate::text::{chars_of, same_chars, slice_of};

verus! {

/// A built-in command: its name and the layout it switches to.
#[derive(Clone, Debug)]
pub struct BuiltInSuggestion {
    pub name: String,
    pub layout: Layout,
}

/// The level of the built-in `name` for `query`: a query that begins with
/// `/` is exact when the rest is the name and contained otherwise.
pub open spec fn builtin_level(name: Seq<char>, query: Seq<char>) -> MatchLevel {
    if query.len() > 0 && query[0] == '/' {
        if query.drop_first() == name {
            MatchLevel::Exact
        } else {
            MatchLevel::Contained
        }
    } else {
        MatchLevel::NoMatch
    }
}

impl BuiltInSuggestion {
    /// Switches the display to the command's layout.
    pub fn action(&self) -> (r: Action)
        ensures
            r matches Action::FollowUp(LanchMessage::SwitchLayout(l)) && l == self.layout,
    {
        Action::FollowUp(LanchMessage::SwitchLayout(self.layout))
    }
}

impl Suggestion for BuiltInSuggestion {
    open spec fn level(&self, query: Seq<char>) -> MatchLevel {
        builtin_level(self.name@, query)
    }

    fn matches(&self, query: &str) -> (r: MatchLevel) {
        let q = chars_of(query);
        if q.len() > 0 && q[0] == '/' {
            let rest = slice_of(&q, 1, q.len());
            assert(rest@ =~= q@.drop_first());
            if same_chars(&rest, &chars_of(self.name.as_str())) {
                MatchLevel::Exact
            } else {
                MatchLevel::Contained
            }
        } else {
            MatchLevel::NoMatch
        }
    }
}

/// The built-in commands as plain values: name and layout.
pub open spec fn builtins_view(cmds: Seq<BuiltInSuggestion>) -> Seq<(Seq<char>, Layout)> {
    cmds.map_values(|c: BuiltInSuggestion| (c.name@, c.layout))
}

/// The source of the built-in commands.
pub struct BuiltInModule {
    pub cmds: Vec<BuiltInSuggestion>,
}

impl BuiltInModule {
    /// The commands `license`, which shows the license, and `help`, which
    /// shows the help.
    pub fn new() -> (r: Self)
        ensures
            builtins_view(r.cmds@) == seq![("license"@, Layout::License), ("help"@, Layout::Help)],
    {
        let mut cmds: Vec<BuiltInSuggestion> = Vec::new();
        cmds.push(BuiltInSuggestion { name: "license".to_owned(), layout: Layout::License });
        cmds.push(BuiltInSuggestion { name: "help".to_owned(), layout: Layout::Help });
        assert(builtins_view(cmds@) =~= seq![
            ("license"@, Layout::License),
            ("help"@, Layout::Help),
        ]);
        Self { cmds }
    }
}

/// The offers of the built-in commands for `query`, in list order.
pub open spec fn builtin_offers(cmds: Seq<(Seq<char>, Layout)>, query: Seq<char>) -> Seq<Offer> {
    Seq::new(
        cmds.len(),
        |i: int| (builtin_level(cmds[i].0, query), CandidateView::BuiltIn(i as usize)),
    )
}

impl SuggestionModule for BuiltInModule {
    open spec fn offers(&self, query: Seq<char>) -> Seq<Offer> {
        builtin_offers(builtins_view(self.cmds@), query)
    }

    fn get_matches(&self, query: &str, v: &mut VecDeque<Candidate>) {
        let ghost offers = self.offers(query@);
        let mut i: usize = 0;
        assert(offers.take(0) =~= Seq::<Offer>::empty());
        while i < self.cmds.len()
            invariant
                i <= self.cmds.len(),
                offers == self.offers(query@),
                cands_view(v@) == merge(cands_view(old(v)@), offers.take(i as int)),
            decreases self.cmds.len() - i,
        {
            let level = self.cmds[i].matches(query);
            proof {
                lemma_merge_step(cands_view(old(v)@), offers, i as int);
            }
            place_exec(v, level, Candidate::BuiltIn(i));
            i = i + 1;
        }
        assert(offers.take(i as int) =~= offers);
    }
}

} // verus!
