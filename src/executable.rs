//! Files of the executable search path as candidates, and the source that
//! offers applications and executables from one cache.
use std::collections::VecDeque;
use std::rc::Rc;
use vstd::prelude::*;

use crate::cache::{LanchCache, LanchCacheRc};
use crate::program::{merge_programs, program_offers, programs_view};
use crate::suggestion::{
    cands_view, launches, lemma_merge_concat, lemma_merge_step, level_from_folded, lower_of,
    lowercase, merge, name_level, place_exec, Action, Candidate, CandidateView, MatchLevel,
    Offer, Suggestion, SuggestionModule,
};

verus! {

/// A file found on the executable search path: its file name and its path.
#[derive(Clone, Debug, Default)]
pub struct ExecutableSuggestion {
    pub name: String,
    pub path: String,
}

/// An executable as plain values: file name, path.
pub type ExecView = (Seq<char>, Seq<char>);

impl View for ExecutableSuggestion {
    type V = ExecView;

    open spec fn view(&self) -> ExecView {
        (self.name@, self.path@)
    }
}

impl ExecutableSuggestion {
    pub fn new(name: &str, exec: &str) -> (r: Self)
        ensures
            r.name@ == name@,
            r.path@ == exec@,
    {
        ExecutableSuggestion { name: name.to_owned(), path: exec.to_owned() }
    }

    /// Starts the file at its path, without arguments.
    pub fn action(&self) -> (r: Action)
        ensures
            launches(r, if self.path@.len() == 0 { Seq::empty() } else { seq![self.path@] }),
    {
        if self.path.as_str().is_empty() {
            Action::EmptyCommand
        } else {
            let args: Vec<String> = Vec::new();
            assert(crate::suggestion::string_views(args@) =~= seq![self.path@].drop_first());
            Action::Spawn(self.path.clone(), args)
        }
    }
}

impl Suggestion for ExecutableSuggestion {
    open spec fn level(&self, query: Seq<char>) -> MatchLevel {
        name_level(query, self.name@)
    }

    fn matches(&self, query: &str) -> (r: MatchLevel) {
        crate::suggestion::name_matches(query, self.name.as_str())
    }
}

/// The offers of a list of executables for `query`, in list order.
pub open spec fn executable_offers(es: Seq<ExecView>, query: Seq<char>) -> Seq<Offer> {
    Seq::new(
        es.len(),
        |i: int| (name_level(query, es[i].0), CandidateView::Executable(i as usize)),
    )
}

/// The views of a list of shared executables.
pub open spec fn executables_view(es: Seq<Rc<ExecutableSuggestion>>) -> Seq<ExecView> {
    es.map_values(|e: Rc<ExecutableSuggestion>| e@)
}

/// Merges the offers of `es` for `query` into `v`.
pub fn merge_executables(es: &Vec<Rc<ExecutableSuggestion>>, query: &str, v: &mut VecDeque<Candidate>)
    ensures
        cands_view(final(v)@) == merge(
            cands_view(old(v)@),
            executable_offers(executables_view(es@), query@),
        ),
{
    let ghost offers = executable_offers(executables_view(es@), query@);
    let folded_query = lowercase(query);
    let mut i: usize = 0;
    assert(offers.take(0) =~= Seq::<Offer>::empty());
    while i < es.len()
        invariant
            i <= es.len(),
            offers == executable_offers(executables_view(es@), query@),
            folded_query@ == lower_of(query@),
            cands_view(v@) == merge(cands_view(old(v)@), offers.take(i as int)),
        decreases es.len() - i,
    {
        let e = &es[i];
        let folded_name = lowercase(e.name.as_str());
        let level = level_from_folded(
            query,
            e.name.as_str(),
            folded_query.as_str(),
            folded_name.as_str(),
        );
        proof {
            lemma_merge_step(cands_view(old(v)@), offers, i as int);
        }
        place_exec(v, level, Candidate::Executable(i));
        i = i + 1;
    }
    assert(offers.take(i as int) =~= offers);
}

/// The source of application and executable candidates, over one cache.
pub struct ExecutableModule {
    pub cache: LanchCacheRc,
}

impl ExecutableModule {
    pub fn new(cache: LanchCache) -> (r: Self)
        ensures
            r.cache@ == cache@,
    {
        Self { cache: LanchCacheRc::from(cache) }
    }

    /// Puts a freshly generated cache in place of the current one.
    pub fn refresh_cache(&mut self, cache: LanchCache)
        ensures
            final(self).cache@ == cache@,
    {
        self.cache = LanchCacheRc::from(cache);
    }
}

impl SuggestionModule for ExecutableModule {
    /// The applications first, then the executables.
    open spec fn offers(&self, query: Seq<char>) -> Seq<Offer> {
        program_offers(programs_view(self.cache.programs@), query) + executable_offers(
            executables_view(self.cache.executables@),
            query,
        )
    }

    fn get_matches(&self, query: &str, v: &mut VecDeque<Candidate>) {
        let ghost start = cands_view(v@);
        merge_programs(&self.cache.programs, query, v);
        merge_executables(&self.cache.executables, query, v);
        proof {
            lemma_merge_concat(
                start,
                program_offers(programs_view(self.cache.programs@), query@),
                executable_offers(executables_view(self.cache.executables@), query@),
            );
        }
    }
}

} // verus!
