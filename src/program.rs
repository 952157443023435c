//! Desktop applications as candidates.
use std::collections::VecDeque;
use std::rc::Rc;
use vstd::prelude::*;

use crate::suggestion::{
    cands_view, launch_words, launches, lemma_merge_step, level_from_folded, lowercase, merge,
    name_level, place_exec, Action, Candidate, CandidateView, MatchLevel, Offer, Suggestion,
    SuggestionModule,
};
use crate::text::{chars_of, split_words, views, words};

verus! {

/// An application read from a desktop entry: its name, its command line,
/// and the path of its icon when one was found.
#[derive(Clone, Debug, Default)]
pub struct ProgramSuggestion {
    pub name: String,
    pub command_line: String,
    pub icon: Option<String>,
}

/// An application as plain values: name, command line, icon path.
pub type ProgramView = (Seq<char>, Seq<char>, Option<Seq<char>>);

impl View for ProgramSuggestion {
    type V = ProgramView;

    open spec fn view(&self) -> ProgramView {
        (self.name@, self.command_line@, crate::suggestion::opt_view(self.icon))
    }
}

/// `ws` without the words that begin with `%`, the field codes of a desktop
/// entry's command line.
pub open spec fn drop_placeholders(ws: Seq<Seq<char>>) -> Seq<Seq<char>>
    decreases ws.len(),
{
    if ws.len() == 0 {
        Seq::empty()
    } else if ws.last().len() > 0 && ws.last()[0] == '%' {
        drop_placeholders(ws.drop_last())
    } else {
        drop_placeholders(ws.drop_last()).push(ws.last())
    }
}

/// The words that an application's command line starts: the program, then
/// its arguments without field codes.
pub open spec fn program_words(exec: Seq<char>) -> Seq<Seq<char>> {
    let ws = words(exec);
    if ws.len() == 0 {
        ws
    } else {
        seq![ws[0]] + drop_placeholders(ws.drop_first())
    }
}

impl ProgramSuggestion {
    pub fn new(name: &str, exec: &str, icon: Option<String>) -> (r: Self)
        ensures
            r.name@ == name@,
            r.command_line@ == exec@,
            r.icon == icon,
    {
        ProgramSuggestion { name: name.to_owned(), command_line: exec.to_owned(), icon }
    }

    /// Starts the command line, leaving out the field codes (`%u`, `%F`, ...).
    pub fn action(&self) -> (r: Action)
        ensures
            launches(r, program_words(self.command_line@)),
    {
        let ws = split_words(&chars_of(self.command_line.as_str()));
        if ws.len() == 0 {
            return launch_words(&ws);
        }
        let mut kept: Vec<Vec<char>> = Vec::new();
        kept.push(ws[0].clone());
        let mut i: usize = 1;
        let ghost rest = views(ws@).drop_first();
        assert(rest.take(0) =~= Seq::<Seq<char>>::empty());
        assert(views(kept@) =~= seq![views(ws@)[0]] + drop_placeholders(rest.take(0)));
        while i < ws.len()
            invariant
                1 <= i <= ws.len(),
                rest == views(ws@).drop_first(),
                views(kept@) == seq![views(ws@)[0]] + drop_placeholders(rest.take(i - 1)),
            decreases ws.len() - i,
        {
            let ghost before = kept@;
            assert(rest.take(i as int).drop_last() =~= rest.take(i - 1));
            assert(rest.take(i as int).last() == ws@[i as int]@);
            if !(ws[i].len() > 0 && ws[i][0] == '%') {
                kept.push(ws[i].clone());
                assert(views(kept@) =~= views(before).push(ws@[i as int]@));
            }
            i = i + 1;
        }
        assert(rest.take(i - 1) =~= rest);
        launch_words(&kept)
    }
}

impl Suggestion for ProgramSuggestion {
    open spec fn level(&self, query: Seq<char>) -> MatchLevel {
        name_level(query, self.name@)
    }

    fn matches(&self, query: &str) -> (r: MatchLevel) {
        crate::suggestion::name_matches(query, self.name.as_str())
    }
}

/// The offers of a list of applications for `query`, in list order.
pub open spec fn program_offers(ps: Seq<ProgramView>, query: Seq<char>) -> Seq<Offer> {
    Seq::new(
        ps.len(),
        |i: int| (name_level(query, ps[i].0), CandidateView::Program(i as usize)),
    )
}

/// The views of a list of shared applications.
pub open spec fn programs_view(ps: Seq<Rc<ProgramSuggestion>>) -> Seq<ProgramView> {
    ps.map_values(|p: Rc<ProgramSuggestion>| p@)
}

/// Merges the offers of `ps` for `query` into `v`.
pub fn merge_programs(ps: &Vec<Rc<ProgramSuggestion>>, query: &str, v: &mut VecDeque<Candidate>)
    ensures
        cands_view(final(v)@) == merge(
            cands_view(old(v)@),
            program_offers(programs_view(ps@), query@),
        ),
{
    let ghost offers = program_offers(programs_view(ps@), query@);
    let folded_query = lowercase(query);
    let mut i: usize = 0;
    assert(offers.take(0) =~= Seq::<Offer>::empty());
    while i < ps.len()
        invariant
            i <= ps.len(),
            offers == program_offers(programs_view(ps@), query@),
            folded_query@ == crate::suggestion::lower_of(query@),
            cands_view(v@) == merge(cands_view(old(v)@), offers.take(i as int)),
        decreases ps.len() - i,
    {
        let p = &ps[i];
        let folded_name = lowercase(p.name.as_str());
        let level = level_from_folded(
            query,
            p.name.as_str(),
            folded_query.as_str(),
            folded_name.as_str(),
        );
        proof {
            lemma_merge_step(cands_view(old(v)@), offers, i as int);
        }
        place_exec(v, level, Candidate::Program(i));
        i = i + 1;
    }
    assert(offers.take(i as int) =~= offers);
}

/// The source of application candidates, over a shared list.
pub struct ProgramModule {
    pub cache: Vec<Rc<ProgramSuggestion>>,
}

impl ProgramModule {
    pub fn new(cache: Vec<Rc<ProgramSuggestion>>) -> (r: Self)
        ensures
            r.cache == cache,
    {
        Self { cache }
    }
}

impl SuggestionModule for ProgramModule {
    open spec fn offers(&self, query: Seq<char>) -> Seq<Offer> {
        program_offers(programs_view(self.cache@), query)
    }

    fn get_matches(&self, query: &str, v: &mut VecDeque<Candidate>) {
        merge_programs(&self.cache, query, v);
    }
}

} // verus!
