//! What every candidate source shares: the match levels, the candidates they
//! offer, the rule that merges offers into one ordered sequence, and what a
//! candidate does when it is committed to.
use std::collections::VecDeque;
use vstd::prelude::*;

use crate::command::CommandSuggestion;
use crate::text::{chars_of, contains, contains_exec, string_of, views};
use crate::timedate::{DateSuggestion, TimeSuggestion};

verus! {

/// How a candidate ranks for a query.
#[derive(Clone, Copy, Debug, PartialEq, Eq, Structural)]
pub enum MatchLevel {
    Exact,
    Contained,
    NoMatch,
}

/// A step of the selection cursor.
#[derive(Clone, Copy, Debug, PartialEq, Eq, Structural)]
pub enum Direction {
    Up,
    Down,
}

/// What the launcher shows.
#[derive(Clone, Copy, Debug, PartialEq, Eq, Structural)]
pub enum Layout {
    Default,
    License,
    Help,
}

/// The events the launcher reacts to.
#[derive(Clone, Debug)]
pub enum LanchMessage {
    QueryChanged(String),
    NavigateList(Direction),
    ExecuteSelected,
    Escape,
    SwitchLayout(Layout),
}

/// What committing to a candidate asks of the caller.
#[derive(Clone, Debug)]
pub enum Action {
    /// Nothing more to do: the interactive session may end.
    Close,
    /// A message to process next.
    FollowUp(LanchMessage),
    /// Start the program (first field) with the arguments (second field);
    /// a successful start ends the session, a failed one is reported.
    Spawn(String, Vec<String>),
    /// The command line holds no program to start.
    EmptyCommand,
}

/// One entry of the ordered sequence: a handle on what a source offered.
/// Built-ins, programs and executables are named by their position in the
/// list of the source that holds them.
#[derive(Clone, Debug)]
pub enum Candidate {
    BuiltIn(usize),
    Command(CommandSuggestion),
    Time(TimeSuggestion),
    Date(DateSuggestion),
    Program(usize),
    Executable(usize),
}

/// What a candidate stands for, as plain values.
pub enum CandidateView {
    BuiltIn(usize),
    Command(Seq<char>),
    Time(Option<Seq<char>>),
    Date(Option<Seq<char>>),
    Program(usize),
    Executable(usize),
}

impl View for Candidate {
    type V = CandidateView;

    open spec fn view(&self) -> CandidateView {
        match self {
            Candidate::BuiltIn(i) => CandidateView::BuiltIn(*i),
            Candidate::Command(c) => CandidateView::Command(c.cmd@),
            Candidate::Time(t) => CandidateView::Time(opt_view(t.time_zone)),
            Candidate::Date(d) => CandidateView::Date(opt_view(d.time_zone)),
            Candidate::Program(i) => CandidateView::Program(*i),
            Candidate::Executable(i) => CandidateView::Executable(*i),
        }
    }
}

/// An optional string as an optional sequence of characters.
pub open spec fn opt_view(s: Option<String>) -> Option<Seq<char>> {
    match s {
        Some(x) => Some(x@),
        None => None,
    }
}

/// The views of a sequence of candidates.
pub open spec fn cands_view(v: Seq<Candidate>) -> Seq<CandidateView> {
    v.map_values(|c: Candidate| c@)
}

/// A candidate offered with its level.
pub type Offer = (MatchLevel, CandidateView);

/// The contents of a list of strings.
pub open spec fn string_views(v: Seq<String>) -> Seq<Seq<char>> {
    v.map_values(|x: String| x@)
}

/// `a` starts the first of `words` with the rest as arguments, or reports
/// that there is no program when `words` is empty.
pub open spec fn launches(a: Action, words: Seq<Seq<char>>) -> bool {
    if words.len() == 0 {
        a is EmptyCommand
    } else {
        match a {
            Action::Spawn(program, args) => program@ == words[0] && string_views(args@)
                == words.drop_first(),
            _ => false,
        }
    }
}

/// `acc` after one offer: an exact match goes to the front, a contained one
/// to the back, and one that does not match is dropped.
pub open spec fn place(acc: Seq<CandidateView>, offer: Offer) -> Seq<CandidateView> {
    match offer.0 {
        MatchLevel::Exact => seq![offer.1] + acc,
        MatchLevel::Contained => acc.push(offer.1),
        MatchLevel::NoMatch => acc,
    }
}

/// `acc` after each of `offers` in turn.
pub open spec fn merge(acc: Seq<CandidateView>, offers: Seq<Offer>) -> Seq<CandidateView>
    decreases offers.len(),
{
    if offers.len() == 0 {
        acc
    } else {
        place(merge(acc, offers.drop_last()), offers.last())
    }
}

/// `place`, keeping each candidate's level beside it.
pub open spec fn place_ranked(acc: Seq<Offer>, offer: Offer) -> Seq<Offer> {
    match offer.0 {
        MatchLevel::Exact => seq![offer] + acc,
        MatchLevel::Contained => acc.push(offer),
        MatchLevel::NoMatch => acc,
    }
}

/// `merge`, keeping each candidate's level beside it.
pub open spec fn merge_ranked(acc: Seq<Offer>, offers: Seq<Offer>) -> Seq<Offer>
    decreases offers.len(),
{
    if offers.len() == 0 {
        acc
    } else {
        place_ranked(merge_ranked(acc, offers.drop_last()), offers.last())
    }
}

/// The candidates of a ranked sequence, without their levels.
pub open spec fn unranked(r: Seq<Offer>) -> Seq<CandidateView> {
    r.map_values(|p: Offer| p.1)
}

/// No contained candidate stands before an exact one, and every one matched.
pub open spec fn exact_first(r: Seq<Offer>) -> bool {
    &&& forall|i: int| 0 <= i < r.len() ==> r[i].0 != MatchLevel::NoMatch
    &&& forall|i: int, j: int|
        0 <= i < j < r.len() && r[i].0 == MatchLevel::Contained ==> r[j].0 != MatchLevel::Exact
}

/// Merging with or without the levels gives the same candidates.
pub proof fn lemma_merge_unranked(acc: Seq<Offer>, offers: Seq<Offer>)
    ensures
        unranked(merge_ranked(acc, offers)) == merge(unranked(acc), offers),
    decreases offers.len(),
{
    if offers.len() > 0 {
        lemma_merge_unranked(acc, offers.drop_last());
        let m = merge_ranked(acc, offers.drop_last());
        let o = offers.last();
        match o.0 {
            MatchLevel::Exact => {
                assert(unranked(seq![o] + m) =~= seq![o.1] + unranked(m));
            },
            MatchLevel::Contained => {
                assert(unranked(m.push(o)) =~= unranked(m).push(o.1));
            },
            MatchLevel::NoMatch => {},
        }
    }
}

/// Merging offers into a sequence whose exact candidates come first keeps
/// them first.
pub proof fn lemma_merge_exact_first(acc: Seq<Offer>, offers: Seq<Offer>)
    requires
        exact_first(acc),
    ensures
        exact_first(merge_ranked(acc, offers)),
    decreases offers.len(),
{
    if offers.len() > 0 {
        lemma_merge_exact_first(acc, offers.drop_last());
        let m = merge_ranked(acc, offers.drop_last());
        let o = offers.last();
        match o.0 {
            MatchLevel::Exact => {
                let r = seq![o] + m;
                assert forall|i: int, j: int|
                    0 <= i < j < r.len() && r[i].0 == MatchLevel::Contained implies r[j].0
                    != MatchLevel::Exact by {
                    assert(r[i] == m[i - 1]);
                    assert(r[j] == m[j - 1]);
                }
                assert forall|i: int| 0 <= i < r.len() implies r[i].0 != MatchLevel::NoMatch by {
                    if i > 0 {
                        assert(r[i] == m[i - 1]);
                    }
                }
            },
            MatchLevel::Contained => {
                let r = m.push(o);
                assert forall|i: int, j: int|
                    0 <= i < j < r.len() && r[i].0 == MatchLevel::Contained implies r[j].0
                    != MatchLevel::Exact by {
                    if j < m.len() {
                        assert(r[i] == m[i] && r[j] == m[j]);
                    }
                }
                assert forall|i: int| 0 <= i < r.len() implies r[i].0 != MatchLevel::NoMatch by {
                    if i < m.len() {
                        assert(r[i] == m[i]);
                    }
                }
            },
            MatchLevel::NoMatch => {},
        }
    }
}

/// Merging two runs of offers is merging the first, then the second.
pub proof fn lemma_merge_concat(acc: Seq<CandidateView>, a: Seq<Offer>, b: Seq<Offer>)
    ensures
        merge(acc, a + b) == merge(merge(acc, a), b),
    decreases b.len(),
{
    if b.len() == 0 {
        assert(a + b =~= a);
    } else {
        lemma_merge_concat(acc, a, b.drop_last());
        assert((a + b).drop_last() =~= a + b.drop_last());
    }
}

/// Every candidate of a merge satisfies `ok` when every candidate it started
/// with and every offer does.
pub proof fn lemma_merge_all(acc: Seq<CandidateView>, offers: Seq<Offer>, ok: spec_fn(CandidateView) -> bool)
    requires
        forall|i: int| 0 <= i < acc.len() ==> ok(#[trigger] acc[i]),
        forall|i: int| 0 <= i < offers.len() ==> ok(#[trigger] offers[i].1),
    ensures
        forall|i: int| 0 <= i < merge(acc, offers).len() ==> ok(#[trigger] merge(acc, offers)[i]),
    decreases offers.len(),
{
    if offers.len() > 0 {
        let rest = offers.drop_last();
        assert forall|i: int| 0 <= i < rest.len() implies ok(#[trigger] rest[i].1) by {
            assert(rest[i] == offers[i]);
        }
        lemma_merge_all(acc, rest, ok);
        let m = merge(acc, rest);
        let o = offers.last();
        assert(ok(offers[offers.len() - 1].1));
        let r = place(m, o);
        assert forall|i: int| 0 <= i < r.len() implies ok(#[trigger] r[i]) by {
            match o.0 {
                MatchLevel::Exact => {
                    if i > 0 {
                        assert(r[i] == m[i - 1]);
                    }
                },
                MatchLevel::Contained => {
                    if i < m.len() {
                        assert(r[i] == m[i]);
                    }
                },
                MatchLevel::NoMatch => {},
            }
        }
    }
}

/// Merging keeps what was there and adds every offer that matched.
pub proof fn lemma_merge_keeps(acc: Seq<Offer>, offers: Seq<Offer>)
    ensures
        forall|x: Offer| acc.contains(x) ==> #[trigger] merge_ranked(acc, offers).contains(x),
        forall|j: int|
            0 <= j < offers.len() && offers[j].0 != MatchLevel::NoMatch ==> merge_ranked(
                acc,
                offers,
            ).contains(#[trigger] offers[j]),
    decreases offers.len(),
{
    if offers.len() > 0 {
        let rest = offers.drop_last();
        lemma_merge_keeps(acc, rest);
        let m = merge_ranked(acc, rest);
        let o = offers.last();
        let r = place_ranked(m, o);
        assert forall|x: Offer| m.contains(x) implies r.contains(x) by {
            let k = choose|k: int| 0 <= k < m.len() && m[k] == x;
            match o.0 {
                MatchLevel::Exact => {
                    assert(r[k + 1] == x);
                },
                MatchLevel::Contained => {
                    assert(r[k] == x);
                },
                MatchLevel::NoMatch => {},
            }
        }
        assert forall|j: int|
            0 <= j < offers.len() && offers[j].0 != MatchLevel::NoMatch implies r.contains(
                #[trigger] offers[j],
            ) by {
            if j < rest.len() {
                assert(rest[j] == offers[j]);
                assert(m.contains(rest[j]));
            } else {
                match o.0 {
                    MatchLevel::Exact => {
                        assert(r[0] == o);
                    },
                    MatchLevel::Contained => {
                        assert(r[r.len() - 1] == o);
                    },
                    MatchLevel::NoMatch => {},
                }
            }
        }
    }
}

/// The exact offers of `s`, in order.
pub open spec fn exact_part(s: Seq<Offer>) -> Seq<Offer> {
    s.filter(|o: Offer| o.0 == MatchLevel::Exact)
}

/// The contained offers of `s`, in order.
pub open spec fn contained_part(s: Seq<Offer>) -> Seq<Offer> {
    s.filter(|o: Offer| o.0 == MatchLevel::Contained)
}

/// The raw-command entries of `s`, in order.
pub open spec fn command_part(s: Seq<Offer>) -> Seq<Offer> {
    s.filter(|o: Offer| o.1 is Command)
}

/// No entry of `s` is a raw command.
pub open spec fn no_command(s: Seq<Offer>) -> bool {
    forall|i: int| 0 <= i < s.len() ==> !(#[trigger] s[i].1 is Command)
}

/// Merged from nothing, the exact offers come first, the one offered last in
/// front, and the contained offers follow in the order offered.
pub proof fn lemma_merge_order(offers: Seq<Offer>)
    ensures
        merge_ranked(Seq::empty(), offers) == exact_part(offers).reverse() + contained_part(
            offers,
        ),
    decreases offers.len(),
{
    broadcast use {Seq::lemma_filter_push, Seq::lemma_filter_prepend};

    if offers.len() == 0 {
        reveal(Seq::filter);
        assert(exact_part(offers).reverse() + contained_part(offers) =~= Seq::<Offer>::empty());
    } else {
        let rest = offers.drop_last();
        let o = offers.last();
        lemma_merge_order(rest);
        assert(offers =~= rest.push(o));
        let e = exact_part(rest);
        let c = contained_part(rest);
        assert(exact_part(offers) == exact_part(rest.push(o)));
        assert(contained_part(offers) == contained_part(rest.push(o)));
        match o.0 {
            MatchLevel::Exact => {
                assert(e.push(o).reverse() =~= seq![o] + e.reverse());
                assert(seq![o] + (e.reverse() + c) =~= (seq![o] + e.reverse()) + c);
            },
            MatchLevel::Contained => {
                assert((e.reverse() + c).push(o) =~= e.reverse() + c.push(o));
            },
            MatchLevel::NoMatch => {},
        }
    }
}

/// Merging offers none of which is a raw command keeps the raw commands
/// already there, and adds none.
pub proof fn lemma_merge_no_command(acc: Seq<Offer>, offers: Seq<Offer>)
    requires
        no_command(offers),
    ensures
        command_part(merge_ranked(acc, offers)) == command_part(acc),
    decreases offers.len(),
{
    broadcast use {Seq::lemma_filter_push, Seq::lemma_filter_prepend};

    if offers.len() > 0 {
        let rest = offers.drop_last();
        assert forall|i: int| 0 <= i < rest.len() implies !(#[trigger] rest[i].1 is Command) by {
            assert(rest[i] == offers[i]);
        }
        lemma_merge_no_command(acc, rest);
        let o = offers.last();
        assert(!(offers[offers.len() - 1].1 is Command));
        let m = merge_ranked(acc, rest);
        assert(command_part(seq![o] + m) == command_part(m));
        assert(command_part(m.push(o)) == command_part(m));
    }
}

/// Merging two runs of offers, keeping the levels, is merging the first,
/// then the second.
pub proof fn lemma_merge_ranked_concat(acc: Seq<Offer>, a: Seq<Offer>, b: Seq<Offer>)
    ensures
        merge_ranked(acc, a + b) == merge_ranked(merge_ranked(acc, a), b),
    decreases b.len(),
{
    if b.len() == 0 {
        assert(a + b =~= a);
    } else {
        lemma_merge_ranked_concat(acc, a, b.drop_last());
        assert((a + b).drop_last() =~= a + b.drop_last());
    }
}

/// Merging one more offer of a run.
pub proof fn lemma_merge_step(acc: Seq<CandidateView>, offers: Seq<Offer>, i: int)
    requires
        0 <= i < offers.len(),
    ensures
        merge(acc, offers.take(i + 1)) == place(merge(acc, offers.take(i)), offers[i]),
{
    assert(offers.take(i + 1).drop_last() =~= offers.take(i));
}

/// Places one offer into `v`.
pub fn place_exec(v: &mut VecDeque<Candidate>, level: MatchLevel, c: Candidate)
    ensures
        cands_view(final(v)@) == place(cands_view(old(v)@), (level, c@)),
{
    match level {
        MatchLevel::Exact => {
            v.push_front(c);
            assert(cands_view(v@) =~= seq![c@] + cands_view(old(v)@));
        },
        MatchLevel::Contained => {
            v.push_back(c);
            assert(cands_view(v@) =~= cands_view(old(v)@).push(c@));
        },
        MatchLevel::NoMatch => {},
    }
}

/// Something that can take a place in the ordered sequence.
pub trait Suggestion {
    /// How this suggestion ranks for `query`.
    spec fn level(&self, query: Seq<char>) -> MatchLevel;

    /// Ranks this suggestion for `query`.
    fn matches(&self, query: &str) -> (r: MatchLevel)
        ensures
            r == self.level(query@),
    ;
}

/// A candidate source: it offers candidates for a query, each with a level,
/// and merges them into the caller's ordered sequence.
pub trait SuggestionModule {
    /// What this source offers for `query`, in the order it offers it.
    spec fn offers(&self, query: Seq<char>) -> Seq<Offer>;

    /// Merges this source's offers for `query` into `v`.
    fn get_matches(&self, query: &str, v: &mut VecDeque<Candidate>)
        ensures
            cands_view(final(v)@) == merge(cands_view(old(v)@), self.offers(query@)),
    ;
}

/// The name of a folded (lower-cased) string: what `str::to_lowercase` gives.
pub uninterp spec fn lower_of(s: Seq<char>) -> Seq<char>;

/// Relies on `str::to_lowercase`, whose result depends on the characters alone.
#[verifier::external_body]
pub(crate) fn lowercase(s: &str) -> (r: String)
    ensures
        r@ == lower_of(s@),
{
    s.to_lowercase()
}

/// The level of an entry called `name`, given the folded forms of the query
/// and the name: exact on the same text, contained when the folded name
/// holds the folded query.
pub open spec fn folded_level(
    query: Seq<char>,
    name: Seq<char>,
    folded_query: Seq<char>,
    folded_name: Seq<char>,
) -> MatchLevel {
    if query == name {
        MatchLevel::Exact
    } else if contains(folded_name, folded_query) {
        MatchLevel::Contained
    } else {
        MatchLevel::NoMatch
    }
}

/// The level of an entry called `name` for `query`: exact on the same text
/// (case counts), contained when the lower-cased name holds the lower-cased
/// query.
pub open spec fn name_level(query: Seq<char>, name: Seq<char>) -> MatchLevel {
    folded_level(query, name, lower_of(query), lower_of(name))
}

/// Whether two strings hold the same characters.
pub fn same_text(a: &str, b: &str) -> (r: bool)
    ensures
        r == (a@ == b@),
{
    crate::text::same_chars(&chars_of(a), &chars_of(b))
}

/// Ranks an entry called `name` from the folded forms of query and name.
pub fn level_from_folded(query: &str, name: &str, folded_query: &str, folded_name: &str) -> (r:
    MatchLevel)
    ensures
        r == folded_level(query@, name@, folded_query@, folded_name@),
{
    if same_text(query, name) {
        MatchLevel::Exact
    } else if contains_exec(&chars_of(folded_name), &chars_of(folded_query)) {
        MatchLevel::Contained
    } else {
        MatchLevel::NoMatch
    }
}

/// Ranks an entry called `name` for `query`.
pub fn name_matches(query: &str, name: &str) -> (r: MatchLevel)
    ensures
        r == name_level(query@, name@),
{
    let fq = lowercase(query);
    let fname = lowercase(name);
    level_from_folded(query, name, fq.as_str(), fname.as_str())
}

/// The action that starts the first of `words` with the rest as arguments.
pub fn launch_words(words: &Vec<Vec<char>>) -> (r: Action)
    ensures
        launches(r, views(words@)),
{
    if words.len() == 0 {
        return Action::EmptyCommand;
    }
    let program = string_of(&words[0]);
    let mut args: Vec<String> = Vec::new();
    let mut i: usize = 1;
    while i < words.len()
        invariant
            1 <= i <= words.len(),
            string_views(args@) == views(words@).subrange(1, i as int),
        decreases words.len() - i,
    {
        let a = string_of(&words[i]);
        let ghost before = args@;
        args.push(a);
        assert(string_views(args@) =~= string_views(before).push(a@));
        assert(views(words@).subrange(1, i + 1) =~= views(words@).subrange(1, i as int).push(
            words@[i as int]@,
        ));
        i = i + 1;
    }
    assert(views(words@).subrange(1, i as int) =~= views(words@).drop_first());
    Action::Spawn(program, args)
}

} // verus!
