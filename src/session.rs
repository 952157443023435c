//! One interactive session: the query, the ordered candidates that every
//! source contributed for it, and the cursor over pages of them.
use std::collections::VecDeque;
use vstd::prelude::*;

use crate::builtin::{builtin_offers, builtins_view, BuiltInModule};
use crate::cache::{CacheView, LanchCache, LanchCacheRc};
use crate::command::{command_offers, command_text, is_escape, CommandModule};
use crate::executable::{executable_offers, ExecutableModule};
use crate::program::{program_offers, program_words};
use crate::suggestion::{
    cands_view, command_part, contained_part, exact_first, exact_part, launches,
    lemma_merge_no_command, lemma_merge_order, lemma_merge_ranked_concat, no_command, lemma_merge_all, lemma_merge_concat,
    lemma_merge_exact_first, lemma_merge_keeps, lemma_merge_unranked, merge, merge_ranked,
    unranked, Action, Candidate, CandidateView, Direction, LanchMessage, Layout, MatchLevel, Offer,
    SuggestionModule,
};
use crate::text::{chars_of, string_of, trim, trim_start, trimmed, trimmed_start, words};
use crate::timedate::{time_date_offers, TimeDateModule};

verus! {

/// How many candidates a page shows.
pub const SUGGESTIONS_PER_PAGE: usize = 10;

/// How many candidates page `page` of a sequence of `len` holds.
pub open spec fn page_fill(len: int, page: int) -> int {
    let rest = len - page * SUGGESTIONS_PER_PAGE;
    if rest < 0 {
        0
    } else if rest < SUGGESTIONS_PER_PAGE {
        rest
    } else {
        SUGGESTIONS_PER_PAGE as int
    }
}

/// The cursor `(page, selected)` points at a candidate of a sequence of
/// `len`, or rests at the start when there is none.
pub open spec fn cursor_ok(len: int, cursor: (int, int)) -> bool {
    let (page, selected) = cursor;
    if len == 0 {
        page == 0 && selected == 0
    } else {
        &&& 0 <= page
        &&& page * SUGGESTIONS_PER_PAGE < len
        &&& 0 <= selected < page_fill(len, page)
    }
}

/// The cursor after one step over a sequence of `len`. Down from the last
/// slot of a page goes to the top of the next page, if there is one; Up from
/// the top of a page goes to the last slot of the previous one. Otherwise the
/// selection moves by one within the page and stops at its ends.
pub open spec fn step(len: int, cursor: (int, int), d: Direction) -> (int, int) {
    let (page, selected) = cursor;
    match d {
        Direction::Down => {
            if selected == SUGGESTIONS_PER_PAGE - 1 && (page + 1) * SUGGESTIONS_PER_PAGE < len {
                (page + 1, 0)
            } else if selected + 1 < page_fill(len, page) {
                (page, selected + 1)
            } else if page_fill(len, page) > 0 {
                (page, page_fill(len, page) - 1)
            } else {
                (page, 0)
            }
        },
        Direction::Up => {
            if selected == 0 && page > 0 {
                (page - 1, SUGGESTIONS_PER_PAGE - 1)
            } else if selected > 0 {
                (page, selected - 1)
            } else {
                (page, 0)
            }
        },
    }
}

/// The cursor after each of `ds` in turn.
pub open spec fn steps(len: int, cursor: (int, int), ds: Seq<Direction>) -> (int, int)
    decreases ds.len(),
{
    if ds.len() == 0 {
        cursor
    } else {
        step(len, steps(len, cursor, ds.drop_last()), ds.last())
    }
}

/// One step keeps a valid cursor valid.
pub proof fn lemma_step_keeps_cursor(len: int, cursor: (int, int), d: Direction)
    requires
        cursor_ok(len, cursor),
    ensures
        cursor_ok(len, step(len, cursor, d)),
{
    let (page, selected) = cursor;
    if len > 0 {
        match d {
            Direction::Down => {
                if selected == SUGGESTIONS_PER_PAGE - 1 && (page + 1) * SUGGESTIONS_PER_PAGE < len {
                    assert(page_fill(len, page + 1) > 0);
                }
            },
            Direction::Up => {
                if selected == 0 && page > 0 {
                    assert((page - 1) * SUGGESTIONS_PER_PAGE == page * SUGGESTIONS_PER_PAGE
                        - SUGGESTIONS_PER_PAGE);
                    assert(page_fill(len, page - 1) == SUGGESTIONS_PER_PAGE);
                }
            },
        }
    }
}

/// Pagination: after a query change and any sequence of navigation commands,
/// the selection is a valid index into the current page (`0 <= selected <
/// min(page size, len - page * page size)`) when there are candidates, and 0
/// when there are none.
pub proof fn lemma_navigation_keeps_cursor(len: int, ds: Seq<Direction>)
    requires
        len >= 0,
    ensures
        cursor_ok(len, steps(len, (0, 0), ds)),
    decreases ds.len(),
{
    if ds.len() > 0 {
        lemma_navigation_keeps_cursor(len, ds.drop_last());
        lemma_step_keeps_cursor(len, steps(len, (0, 0), ds.drop_last()), ds.last());
    }
}

/// What the caller should do after a message was handled.
#[derive(Clone, Debug)]
pub enum Reaction {
    /// Show the new state; nothing else to do.
    Refresh,
    /// The query changed and the candidates were rebuilt.
    Suggested,
    /// Carry out what the selected candidate asks for.
    Perform(Action),
    /// The display switched to this layout.
    Switched(Layout),
    /// End the session.
    Quit,
}

/// Every source's offers for the query `q`, given the built-in commands and
/// the catalog. The sources run in a fixed order: built-ins, raw command,
/// time and date, applications, executables. For a query that begins with
/// `!` the raw command runs last instead, so that its exact candidate ends
/// up in front of every other.
pub open spec fn source_offers(builtins: Seq<(Seq<char>, Layout)>, catalog: CacheView, q: Seq<char>) -> Seq<Offer> {
    let b = builtin_offers(builtins, q);
    let c = command_offers(q);
    let t = time_date_offers(q);
    let k = program_offers(catalog.0, q) + executable_offers(catalog.1, q);
    if is_escape(q) {
        b + t + k + c
    } else {
        b + c + t + k
    }
}

/// The ranked candidates for the trimmed query `q`: none for an empty query,
/// otherwise every source's offers merged in the order the sources run.
pub open spec fn ranking(builtins: Seq<(Seq<char>, Layout)>, catalog: CacheView, q: Seq<char>) -> Seq<Offer> {
    if q.len() == 0 {
        Seq::empty()
    } else {
        merge_ranked(Seq::empty(), source_offers(builtins, catalog, q))
    }
}

/// `c` names an entry of the built-in commands or of the catalog.
pub open spec fn names_entry(builtins: Seq<(Seq<char>, Layout)>, catalog: CacheView, c: CandidateView) -> bool {
    match c {
        CandidateView::BuiltIn(i) => i < builtins.len(),
        CandidateView::Program(i) => i < catalog.0.len(),
        CandidateView::Executable(i) => i < catalog.1.len(),
        _ => true,
    }
}

/// Every offer of `s` names an entry of the built-in commands or the catalog.
pub open spec fn all_name_entries(builtins: Seq<(Seq<char>, Layout)>, catalog: CacheView, s: Seq<Offer>) -> bool {
    forall|i: int| 0 <= i < s.len() ==> names_entry(builtins, catalog, #[trigger] s[i].1)
}

/// Offers that name entries still do once put together.
proof fn lemma_concat_names(
    builtins: Seq<(Seq<char>, Layout)>,
    catalog: CacheView,
    a: Seq<Offer>,
    b: Seq<Offer>,
)
    requires
        all_name_entries(builtins, catalog, a),
        all_name_entries(builtins, catalog, b),
    ensures
        all_name_entries(builtins, catalog, a + b),
{
    assert forall|i: int| 0 <= i < (a + b).len() implies names_entry(
        builtins,
        catalog,
        #[trigger] (a + b)[i].1,
    ) by {
        if i < a.len() {
            assert((a + b)[i] == a[i]);
        } else {
            assert((a + b)[i] == b[i - a.len()]);
        }
    }
}

/// Offers without raw commands stay without them once put together.
proof fn lemma_concat_no_command(a: Seq<Offer>, b: Seq<Offer>)
    requires
        no_command(a),
        no_command(b),
    ensures
        no_command(a + b),
{
    assert forall|i: int| 0 <= i < (a + b).len() implies !(#[trigger] (a + b)[i].1 is Command) by {
        if i < a.len() {
            assert((a + b)[i] == a[i]);
        } else {
            assert((a + b)[i] == b[i - a.len()]);
        }
    }
}

/// An interactive session over one cache.
pub struct QuerySession {
    builtins: BuiltInModule,
    command: CommandModule,
    timedate: TimeDateModule,
    catalog: ExecutableModule,
    layout: Layout,
    query: String,
    suggestions: VecDeque<Candidate>,
    selected: usize,
    page: usize,
}

impl QuerySession {
    /// The text of the query, as typed (without leading whitespace).
    pub closed spec fn query_text(&self) -> Seq<char> {
        self.query@
    }

    /// The ordered candidates of the current query.
    pub closed spec fn ordered(&self) -> Seq<CandidateView> {
        cands_view(self.suggestions@)
    }

    /// The cursor: current page and selected slot on it.
    pub closed spec fn cursor(&self) -> (int, int) {
        (self.page as int, self.selected as int)
    }

    /// The applications and executables the session searches.
    pub closed spec fn catalog_view(&self) -> CacheView {
        self.catalog.cache@
    }

    /// The built-in commands: name and layout of each.
    pub closed spec fn builtin_list(&self) -> Seq<(Seq<char>, Layout)> {
        builtins_view(self.builtins.cmds@)
    }

    /// The layout shown.
    pub closed spec fn layout_shown(&self) -> Layout {
        self.layout
    }

    /// Every source's offers for `q`, in the order the sources run.
    pub open spec fn all_offers(&self, q: Seq<char>) -> Seq<Offer> {
        source_offers(self.builtin_list(), self.catalog_view(), q)
    }

    /// The ranked candidates for the trimmed query `q`.
    pub open spec fn ranked_for(&self, q: Seq<char>) -> Seq<Offer> {
        ranking(self.builtin_list(), self.catalog_view(), q)
    }

    /// The ordered candidates for the trimmed query `q`.
    pub open spec fn ordered_for(&self, q: Seq<char>) -> Seq<CandidateView> {
        unranked(self.ranked_for(q))
    }

    /// `c` names an entry that the session holds.
    pub open spec fn handle_ok(&self, c: CandidateView) -> bool {
        names_entry(self.builtin_list(), self.catalog_view(), c)
    }

    /// The cursor points into the sequence and every candidate names an
    /// entry that the session holds.
    pub closed spec fn wf(&self) -> bool {
        &&& cursor_ok(self.suggestions@.len() as int, self.cursor())
        &&& forall|i: int|
            0 <= i < self.suggestions@.len() ==> self.handle_ok(#[trigger] self.ordered()[i])
    }

    /// A session over `cache`, with an empty query and no candidates.
    pub fn new(cache: LanchCache) -> (r: Self)
        ensures
            r.wf(),
            r.query_text() == Seq::<char>::empty(),
            r.ordered() == Seq::<CandidateView>::empty(),
            r.cursor() == (0int, 0int),
            r.catalog_view() == cache@,
            r.layout_shown() == Layout::Default,
            r.builtin_list() == seq![("license"@, Layout::License), ("help"@, Layout::Help)],
    {
        let r = QuerySession {
            builtins: BuiltInModule::new(),
            command: CommandModule,
            timedate: TimeDateModule::new(),
            catalog: ExecutableModule::new(cache),
            layout: Layout::Default,
            query: String::new(),
            suggestions: VecDeque::new(),
            selected: 0,
            page: 0,
        };
        assert(r.ordered() =~= Seq::<CandidateView>::empty());
        r
    }

    /// Every offer names an entry that the session holds.
    proof fn lemma_offers_ok(&self, q: Seq<char>)
        ensures
            all_name_entries(self.builtin_list(), self.catalog_view(), self.all_offers(q)),
    {
        let bl = self.builtin_list();
        let cv = self.catalog_view();
        let b = builtin_offers(bl, q);
        let c = command_offers(q);
        let t = time_date_offers(q);
        let p = program_offers(cv.0, q);
        let e = executable_offers(cv.1, q);
        assert(all_name_entries(bl, cv, b));
        assert(all_name_entries(bl, cv, c));
        assert(all_name_entries(bl, cv, t));
        assert(all_name_entries(bl, cv, p));
        assert(all_name_entries(bl, cv, e));
        lemma_concat_names(bl, cv, p, e);
        if is_escape(q) {
            lemma_concat_names(bl, cv, b, t);
            lemma_concat_names(bl, cv, b + t, p + e);
            lemma_concat_names(bl, cv, b + t + (p + e), c);
        } else {
            lemma_concat_names(bl, cv, b, c);
            lemma_concat_names(bl, cv, b + c, t);
            lemma_concat_names(bl, cv, b + c + t, p + e);
        }
    }

    /// The ordered candidates for the trimmed, non-empty query `q`.
    fn collect(&self, q: &str) -> (r: VecDeque<Candidate>)
        requires
            q@.len() > 0,
        ensures
            cands_view(r@) == self.ordered_for(q@),
            forall|i: int| 0 <= i < r@.len() ==> self.handle_ok(#[trigger] cands_view(r@)[i]),
    {
        let ghost bl = self.builtin_list();
        let ghost cv = self.catalog_view();
        let ghost b = builtin_offers(bl, q@);
        let ghost c = command_offers(q@);
        let ghost t = time_date_offers(q@);
        let ghost k = program_offers(cv.0, q@) + executable_offers(cv.1, q@);
        let mut v: VecDeque<Candidate> = VecDeque::new();
        let ghost empty = cands_view(v@);
        assert(empty =~= Seq::<CandidateView>::empty());
        let qc = chars_of(q);
        self.builtins.get_matches(q, &mut v);
        if qc.len() > 0 && qc[0] == '!' {
            self.timedate.get_matches(q, &mut v);
            self.catalog.get_matches(q, &mut v);
            self.command.get_matches(q, &mut v);
            proof {
                lemma_merge_concat(empty, b, t);
                lemma_merge_concat(empty, b + t, k);
                lemma_merge_concat(empty, b + t + k, c);
            }
        } else {
            self.command.get_matches(q, &mut v);
            self.timedate.get_matches(q, &mut v);
            self.catalog.get_matches(q, &mut v);
            proof {
                lemma_merge_concat(empty, b, c);
                lemma_merge_concat(empty, b + c, t);
                lemma_merge_concat(empty, b + c + t, k);
            }
        }
        proof {
            let all = self.all_offers(q@);
            assert(cands_view(v@) == merge(empty, all));
            lemma_merge_unranked(Seq::empty(), all);
            assert(unranked(Seq::<Offer>::empty()) =~= empty);
            self.lemma_offers_ok(q@);
            let ok = |x: CandidateView| self.handle_ok(x);
            lemma_merge_all(empty, all, ok);
        }
        v
    }

    /// A new query: the text without its leading whitespace is kept, the
    /// candidates are rebuilt for the trimmed text, and the cursor goes back
    /// to the start.
    pub fn set_query(&mut self, q: &str)
        requires
            old(self).wf(),
        ensures
            final(self).wf(),
            final(self).query_text() == trim_start(q@),
            final(self).ordered() == final(self).ordered_for(trim(trim_start(q@))),
            final(self).cursor() == (0int, 0int),
            final(self).catalog_view() == old(self).catalog_view(),
            final(self).builtin_list() == old(self).builtin_list(),
            final(self).layout_shown() == old(self).layout_shown(),
            forall|t: Seq<char>| final(self).ordered_for(t) == old(self).ordered_for(t),
    {
        let kept = trimmed_start(&chars_of(q));
        let t = trimmed(&kept);
        let v = if t.len() == 0 {
            let v: VecDeque<Candidate> = VecDeque::new();
            assert(cands_view(v@) =~= Seq::<CandidateView>::empty());
            v
        } else {
            let tq = string_of(&t);
            self.collect(tq.as_str())
        };
        self.query = string_of(&kept);
        self.suggestions = v;
        self.page = 0;
        self.selected = 0;
    }

    /// Moves the cursor one step.
    pub fn navigate(&mut self, d: Direction)
        requires
            old(self).wf(),
        ensures
            final(self).wf(),
            final(self).cursor() == step(old(self).ordered().len() as int, old(self).cursor(), d),
            final(self).ordered() == old(self).ordered(),
            final(self).query_text() == old(self).query_text(),
            final(self).catalog_view() == old(self).catalog_view(),
            final(self).builtin_list() == old(self).builtin_list(),
            final(self).layout_shown() == old(self).layout_shown(),
            forall|t: Seq<char>| final(self).ordered_for(t) == old(self).ordered_for(t),
    {
        let len = self.suggestions.len();
        assert(SUGGESTIONS_PER_PAGE == 10);
        let start = self.page * SUGGESTIONS_PER_PAGE;
        let rest = len - start;
        let fill = if rest < SUGGESTIONS_PER_PAGE {
            rest
        } else {
            SUGGESTIONS_PER_PAGE
        };
        match d {
            Direction::Down => {
                if self.selected == SUGGESTIONS_PER_PAGE - 1 && rest > SUGGESTIONS_PER_PAGE {
                    self.page = self.page + 1;
                    self.selected = 0;
                } else if self.selected + 1 < fill {
                    self.selected = self.selected + 1;
                } else if fill > 0 {
                    self.selected = fill - 1;
                } else {
                    self.selected = 0;
                }
            },
            Direction::Up => {
                if self.selected == 0 && self.page > 0 {
                    self.page = self.page - 1;
                    self.selected = SUGGESTIONS_PER_PAGE - 1;
                } else if self.selected > 0 {
                    self.selected = self.selected - 1;
                } else {
                    self.selected = 0;
                }
            },
        }
        proof {
            lemma_step_keeps_cursor(len as int, old(self).cursor(), d);
            assert forall|i: int| 0 <= i < self.suggestions@.len() implies self.handle_ok(
                #[trigger] self.ordered()[i],
            ) by {
                assert(old(self).handle_ok(old(self).ordered()[i]));
            }
        }
    }

    /// The position of the selected candidate in the whole sequence.
    pub fn selected_index(&self) -> (r: usize)
        requires
            self.wf(),
        ensures
            r == self.cursor().0 * SUGGESTIONS_PER_PAGE + self.cursor().1,
            self.ordered().len() > 0 ==> r < self.ordered().len(),
    {
        let len = self.suggestions.len();
        assert(SUGGESTIONS_PER_PAGE == 10);
        self.page * SUGGESTIONS_PER_PAGE + self.selected
    }

    /// `a` is what committing to `c` asks for: a built-in switches to its
    /// layout, a command line or an application is started, an executable is
    /// started at its path, the time and the date need nothing more.
    pub open spec fn acts(&self, c: CandidateView, a: Action) -> bool {
        match c {
            CandidateView::BuiltIn(i) => a matches Action::FollowUp(LanchMessage::SwitchLayout(l))
                && l == self.builtin_list()[i as int].1,
            CandidateView::Command(cmd) => launches(a, words(cmd)),
            CandidateView::Time(_) => a is Close,
            CandidateView::Date(_) => a is Close,
            CandidateView::Program(i) => launches(
                a,
                program_words(self.catalog_view().0[i as int].1),
            ),
            CandidateView::Executable(i) => {
                let p = self.catalog_view().1[i as int].1;
                launches(a, if p.len() == 0 { Seq::empty() } else { seq![p] })
            },
        }
    }

    /// What committing to the selected candidate asks for; nothing when no
    /// candidate is selected.
    pub fn execute_selected(&self) -> (r: Option<Action>)
        requires
            self.wf(),
        ensures
            r is Some <==> self.ordered().len() > 0,
            r matches Some(a) ==> self.acts(
                self.ordered()[self.cursor().0 * SUGGESTIONS_PER_PAGE + self.cursor().1],
                a,
            ),
    {
        let idx = self.selected_index();
        if idx >= self.suggestions.len() {
            return None;
        }
        assert(self.handle_ok(self.ordered()[idx as int]));
        let a = match &self.suggestions[idx] {
            Candidate::BuiltIn(i) => self.builtins.cmds[*i].action(),
            Candidate::Command(c) => c.action(),
            Candidate::Time(t) => t.action(),
            Candidate::Date(d) => d.action(),
            Candidate::Program(i) => self.catalog.cache.programs[*i].action(),
            Candidate::Executable(i) => self.catalog.cache.executables[*i].action(),
        };
        Some(a)
    }

    /// The session state that a message leaves alone.
    pub open spec fn same_state(&self, other: &Self) -> bool {
        &&& self.query_text() == other.query_text()
        &&& self.ordered() == other.ordered()
        &&& self.cursor() == other.cursor()
        &&& self.layout_shown() == other.layout_shown()
    }

    /// Handles one message: a new query rebuilds the candidates, a navigation
    /// moves the cursor, committing hands out the selected candidate's action,
    /// escape leaves a secondary layout for the default one and ends the
    /// session from the default one, and a layout switch shows that layout.
    pub fn update(&mut self, msg: LanchMessage) -> (r: Reaction)
        requires
            old(self).wf(),
        ensures
            final(self).wf(),
            final(self).catalog_view() == old(self).catalog_view(),
            final(self).builtin_list() == old(self).builtin_list(),
            forall|t: Seq<char>| final(self).ordered_for(t) == old(self).ordered_for(t),
            match msg {
                LanchMessage::QueryChanged(q) => {
                    &&& r is Suggested
                    &&& final(self).query_text() == trim_start(q@)
                    &&& final(self).ordered() == final(self).ordered_for(trim(trim_start(q@)))
                    &&& final(self).cursor() == (0int, 0int)
                    &&& final(self).layout_shown() == old(self).layout_shown()
                },
                LanchMessage::NavigateList(d) => {
                    &&& r is Refresh
                    &&& final(self).cursor() == step(
                        old(self).ordered().len() as int,
                        old(self).cursor(),
                        d,
                    )
                    &&& final(self).ordered() == old(self).ordered()
                    &&& final(self).query_text() == old(self).query_text()
                    &&& final(self).layout_shown() == old(self).layout_shown()
                },
                LanchMessage::ExecuteSelected => {
                    &&& final(self).same_state(old(self))
                    &&& (r is Perform <==> old(self).ordered().len() > 0)
                    &&& r is Perform || r is Refresh
                    &&& r matches Reaction::Perform(a) ==> old(self).acts(
                        old(self).ordered()[old(self).cursor().0 * SUGGESTIONS_PER_PAGE
                            + old(self).cursor().1],
                        a,
                    )
                },
                LanchMessage::Escape => {
                    &&& final(self).query_text() == old(self).query_text()
                    &&& final(self).ordered() == old(self).ordered()
                    &&& final(self).cursor() == old(self).cursor()
                    &&& if old(self).layout_shown() == Layout::Default {
                        r is Quit && final(self).layout_shown() == Layout::Default
                    } else {
                        r matches Reaction::Switched(l) && l == Layout::Default
                            && final(self).layout_shown() == Layout::Default
                    }
                },
                LanchMessage::SwitchLayout(l) => {
                    &&& final(self).query_text() == old(self).query_text()
                    &&& final(self).ordered() == old(self).ordered()
                    &&& final(self).cursor() == old(self).cursor()
                    &&& final(self).layout_shown() == l
                    &&& r matches Reaction::Switched(s) && s == l
                },
            },
    {
        match msg {
            LanchMessage::QueryChanged(q) => {
                self.set_query(q.as_str());
                Reaction::Suggested
            },
            LanchMessage::NavigateList(d) => {
                self.navigate(d);
                Reaction::Refresh
            },
            LanchMessage::ExecuteSelected => {
                match self.execute_selected() {
                    Some(a) => Reaction::Perform(a),
                    None => Reaction::Refresh,
                }
            },
            LanchMessage::Escape => {
                match self.layout {
                    Layout::Default => Reaction::Quit,
                    _ => {
                        self.set_layout(Layout::Default);
                        Reaction::Switched(Layout::Default)
                    },
                }
            },
            LanchMessage::SwitchLayout(l) => {
                self.set_layout(l);
                Reaction::Switched(l)
            },
        }
    }

    /// Shows `layout`.
    fn set_layout(&mut self, layout: Layout)
        requires
            old(self).wf(),
        ensures
            final(self).wf(),
            final(self).layout_shown() == layout,
            final(self).query_text() == old(self).query_text(),
            final(self).ordered() == old(self).ordered(),
            final(self).cursor() == old(self).cursor(),
            final(self).catalog_view() == old(self).catalog_view(),
            final(self).builtin_list() == old(self).builtin_list(),
            forall|t: Seq<char>| final(self).ordered_for(t) == old(self).ordered_for(t),
    {
        self.layout = layout;
        proof {
            assert forall|i: int| 0 <= i < self.suggestions@.len() implies self.handle_ok(
                #[trigger] self.ordered()[i],
            ) by {
                assert(old(self).handle_ok(old(self).ordered()[i]));
            }
        }
    }

    /// The query as typed, without leading whitespace.
    pub fn query(&self) -> (r: &String)
        ensures
            r@ == self.query_text(),
    {
        &self.query
    }

    /// The ordered candidates.
    pub fn suggestions(&self) -> (r: &VecDeque<Candidate>)
        ensures
            cands_view(r@) == self.ordered(),
    {
        &self.suggestions
    }

    /// The current page.
    pub fn page(&self) -> (r: usize)
        ensures
            r == self.cursor().0,
    {
        self.page
    }

    /// The selected slot on the current page.
    pub fn selected(&self) -> (r: usize)
        ensures
            r == self.cursor().1,
    {
        self.selected
    }

    /// The layout shown.
    pub fn layout(&self) -> (r: Layout)
        ensures
            r == self.layout_shown(),
    {
        self.layout
    }

    /// The applications and executables that candidates point into.
    pub fn catalog(&self) -> (r: &LanchCacheRc)
        ensures
            r@ == self.catalog_view(),
    {
        &self.catalog.cache
    }

    /// The built-in commands that candidates point into.
    pub fn builtins(&self) -> (r: &BuiltInModule)
        ensures
            builtins_view(r.cmds@) == self.builtin_list(),
    {
        &self.builtins
    }

    /// For any query, every exact candidate of the ordered sequence comes
    /// before every contained one, and every candidate matched.
    pub proof fn lemma_exact_before_contained(&self, q: Seq<char>)
        ensures
            exact_first(self.ranked_for(q)),
    {
        lemma_merge_exact_first(Seq::empty(), self.all_offers(q));
    }

    /// An empty query yields no candidates.
    pub proof fn lemma_empty_query(&self)
        ensures
            self.ordered_for(Seq::empty()) == Seq::<CandidateView>::empty(),
    {
        assert(self.ordered_for(Seq::empty()) =~= Seq::<CandidateView>::empty());
    }

    /// For a non-empty query, the exact candidates come in the reverse of the
    /// order in which the sources offered them (the last offered in front),
    /// and the contained ones follow in the order offered.
    pub proof fn lemma_source_order(&self, q: Seq<char>)
        requires
            q.len() > 0,
        ensures
            self.ranked_for(q) == exact_part(self.all_offers(q)).reverse() + contained_part(
                self.all_offers(q),
            ),
    {
        lemma_merge_order(self.all_offers(q));
    }

    /// For a non-empty query, the ordered sequence holds exactly one raw
    /// command, ranked exact: the query, or the text after `!` for a query
    /// that begins with `!`.
    pub proof fn lemma_one_command(&self, q: Seq<char>)
        requires
            q.len() > 0,
        ensures
            command_part(self.ranked_for(q)) == seq![
                (MatchLevel::Exact, CandidateView::Command(command_text(q))),
            ],
    {
        broadcast use Seq::lemma_filter_prepend;

        let bl = self.builtin_list();
        let cv = self.catalog_view();
        let b = builtin_offers(bl, q);
        let c = command_offers(q);
        let t = time_date_offers(q);
        let k = program_offers(cv.0, q) + executable_offers(cv.1, q);
        let o = c[0];
        let empty = Seq::<Offer>::empty();
        assert(no_command(b));
        assert(no_command(t));
        assert(no_command(program_offers(cv.0, q)));
        assert(no_command(executable_offers(cv.1, q)));
        lemma_concat_no_command(program_offers(cv.0, q), executable_offers(cv.1, q));
        assert(command_part(empty) =~= empty) by {
            reveal(Seq::filter);
        }
        lemma_merge_no_command(empty, b);
        if is_escape(q) {
            lemma_concat_no_command(b, t);
            lemma_concat_no_command(b + t, k);
            let all = b + t + k + c;
            assert(all.drop_last() =~= b + t + k);
            assert(all.last() == o);
            lemma_merge_no_command(empty, b + t + k);
            let m = merge_ranked(empty, b + t + k);
            assert(command_part(seq![o] + m) == seq![o] + command_part(m));
            assert(seq![o] + empty =~= seq![o]);
        } else {
            lemma_concat_no_command(t, k);
            let mb = merge_ranked(empty, b);
            lemma_merge_ranked_concat(empty, b, c);
            assert(c.drop_last() =~= empty);
            assert(merge_ranked(mb, c.drop_last()) == mb);
            assert(c.last() == o);
            assert(merge_ranked(mb, c) == seq![o] + mb);
            assert(command_part(seq![o] + mb) == seq![o] + command_part(mb));
            assert(seq![o] + empty =~= seq![o]);
            lemma_merge_ranked_concat(empty, b + c, t + k);
            assert(b + c + t + k =~= (b + c) + (t + k));
            lemma_merge_no_command(seq![o] + mb, t + k);
        }
    }

    /// Fallback: for a non-empty query, the ordered sequence holds the raw
    /// command for the query (the text after `!` for an escaped one), ranked
    /// exact, whatever else matched.
    pub proof fn lemma_fallback_present(&self, q: Seq<char>)
        requires
            q.len() > 0,
        ensures
            self.ranked_for(q).contains(
                (MatchLevel::Exact, CandidateView::Command(command_text(q))),
            ),
            self.ordered_for(q).contains(CandidateView::Command(command_text(q))),
    {
        let bl = self.builtin_list();
        let cv = self.catalog_view();
        let b = builtin_offers(bl, q);
        let all = self.all_offers(q);
        let o = (MatchLevel::Exact, CandidateView::Command(command_text(q)));
        if is_escape(q) {
            assert(all[all.len() - 1] == o);
        } else {
            assert(all[b.len() as int] == o);
        }
        lemma_merge_keeps(Seq::empty(), all);
        let r = self.ranked_for(q);
        let j = choose|j: int| 0 <= j < r.len() && r[j] == o;
        assert(self.ordered_for(q)[j] == o.1);
    }

    /// Escape: for a query that begins with `!`, the command after the `!`
    /// is the front-most candidate, ahead of any other exact match.
    pub proof fn lemma_escape_in_front(&self, q: Seq<char>)
        requires
            is_escape(q),
        ensures
            self.ranked_for(q)[0] == (MatchLevel::Exact, CandidateView::Command(q.drop_first())),
            self.ordered_for(q)[0] == CandidateView::Command(q.drop_first()),
    {
        let all = self.all_offers(q);
        assert(all.last() == command_offers(q)[0]);
    }
}

} // verus!
