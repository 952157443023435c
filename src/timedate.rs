//! The time and date sources. A query that holds the keyword `time` (or
//! `date`) matches; the rest of the query is read as a time-zone name.
use std::collections::VecDeque;
use vstd::prelude::*;

use crate::suggestion::{
    cands_view, merge, opt_view, place_exec, string_views, Action, Candidate, CandidateView,
    MatchLevel, Offer, Suggestion, SuggestionModule,
};
use crate::text::{
    chars_of, contains, contains_exec, drop_empty, extend_chars, find, first_occurrence,
    lemma_first_occurrence, non_empty, slice_of, split_chars, split_on, string_of, trim, trimmed,
    views,
};

verus! {

/// The name of what `char::to_uppercase` gives for `c`.
pub uninterp spec fn upper_of(c: char) -> Seq<char>;

/// Relies on `char::to_uppercase`, whose result depends on the character alone.
#[verifier::external_body]
fn uppercase_char(c: char) -> (r: String)
    ensures
        r@ == upper_of(c),
{
    c.to_uppercase().collect()
}

/// Whether `name` is a time-zone identifier that chrono-tz knows.
pub uninterp spec fn is_zone_name(name: Seq<char>) -> bool;

/// Relies on chrono-tz's `FromStr` for `Tz`, which looks the exact name up in
/// its table of zones: whether the name is known depends on the name alone.
#[verifier::external_body]
fn zone_exists(name: &str) -> (r: bool)
    ensures
        r == is_zone_name(name@),
{
    name.parse::<chrono_tz::Tz>().is_ok()
}

/// `w` with its first character upper-cased.
pub open spec fn title_word(w: Seq<char>) -> Seq<char> {
    upper_of(w[0]) + w.drop_first()
}

/// `ws` joined with `_` between neighbours.
pub open spec fn join_words(ws: Seq<Seq<char>>) -> Seq<char>
    decreases ws.len(),
{
    if ws.len() == 0 {
        Seq::empty()
    } else if ws.len() == 1 {
        ws[0]
    } else {
        join_words(ws.drop_last()) + seq!['_'] + ws.last()
    }
}

/// The zone name that the words of `t` spell: the non-empty words between
/// spaces, each title-cased, joined with `_` (`new york` gives `New_York`).
pub open spec fn zone_key(t: Seq<char>) -> Seq<char> {
    join_words(drop_empty(split_on(t, ' ')).map_values(|w: Seq<char>| title_word(w)))
}

/// The regions under which a bare zone name is tried, in order.
pub open spec fn regions() -> Seq<Seq<char>> {
    seq!["Africa"@, "Australia"@, "Asia"@, "Europe"@, "America"@, "Pacific"@]
}

/// The names tried for `key`: itself, then under each region.
pub open spec fn zone_candidates(key: Seq<char>) -> Seq<Seq<char>> {
    seq![key] + regions().map_values(|r: Seq<char>| r + seq!['/'] + key)
}

/// The first of `names` whose flag in `known` is set.
pub open spec fn first_flagged(names: Seq<Seq<char>>, known: Seq<bool>) -> Option<Seq<char>>
    decreases names.len(),
{
    if names.len() == 0 || known.len() == 0 {
        None
    } else if known[0] {
        Some(names[0])
    } else {
        first_flagged(names.drop_first(), known.drop_first())
    }
}

/// The first of `names` that is a known zone.
pub open spec fn first_zone(names: Seq<Seq<char>>) -> Option<Seq<char>>
    decreases names.len(),
{
    if names.len() == 0 {
        None
    } else if is_zone_name(names[0]) {
        Some(names[0])
    } else {
        first_zone(names.drop_first())
    }
}

/// `query` without the first occurrence of `keyword`.
pub open spec fn remainder(query: Seq<char>, keyword: Seq<char>) -> Seq<char> {
    let i = first_occurrence(query, keyword);
    query.take(i) + query.skip(i + keyword.len())
}

/// The zone that the rest of `query` names, once `keyword` is taken out.
pub open spec fn resolve_zone(query: Seq<char>, keyword: Seq<char>) -> Option<Seq<char>> {
    let t = trim(remainder(query, keyword));
    if t.len() == 0 {
        None
    } else {
        first_zone(zone_candidates(zone_key(t)))
    }
}

/// The zone resolved for `query`, when it holds `keyword`.
pub open spec fn keyword_zone(query: Seq<char>, keyword: Seq<char>) -> Option<Seq<char>> {
    if contains(query, keyword) {
        resolve_zone(query, keyword)
    } else {
        None
    }
}

/// The level of the `keyword` source for `query`, given the zone resolved:
/// exact when a zone resolved or the query is the bare keyword, contained
/// when the keyword is there otherwise.
pub open spec fn keyword_level(query: Seq<char>, keyword: Seq<char>, zone: Option<Seq<char>>) -> MatchLevel {
    if !contains(query, keyword) {
        MatchLevel::NoMatch
    } else if zone is Some || query == keyword {
        MatchLevel::Exact
    } else {
        MatchLevel::Contained
    }
}

/// `ws` with each word title-cased.
pub open spec fn titled(ws: Seq<Seq<char>>) -> Seq<Seq<char>> {
    ws.map_values(|w: Seq<char>| title_word(w))
}

/// `w` with its first character upper-cased.
pub fn title_case(w: &Vec<char>) -> (r: Vec<char>)
    requires
        w.len() > 0,
    ensures
        r@ == title_word(w@),
{
    let up = uppercase_char(w[0]);
    let mut r = chars_of(up.as_str());
    let rest = slice_of(w, 1, w.len());
    extend_chars(&mut r, &rest);
    assert(rest@ =~= w@.drop_first());
    r
}

/// The zone name that the words of `t` spell.
pub fn zone_key_of(t: &Vec<char>) -> (r: Vec<char>)
    ensures
        r@ == zone_key(t@),
{
    let pieces = split_chars(t, ' ');
    let ws = non_empty(&pieces);
    let ghost tw = titled(views(ws@));
    let mut r: Vec<char> = Vec::new();
    let mut j: usize = 0;
    assert(tw.take(0) =~= Seq::<Seq<char>>::empty());
    while j < ws.len()
        invariant
            j <= ws.len(),
            tw == titled(views(ws@)),
            views(ws@) == drop_empty(split_on(t@, ' ')),
            r@ == join_words(tw.take(j as int)),
        decreases ws.len() - j,
    {
        proof {
            assert(views(ws@)[j as int].len() > 0) by {
                lemma_drop_empty_non_empty(split_on(t@, ' '));
            }
        }
        if j > 0 {
            r.push('_');
        }
        let w = title_case(&ws[j]);
        extend_chars(&mut r, &w);
        proof {
            let s = tw.take(j + 1);
            assert(s.drop_last() =~= tw.take(j as int));
            assert(s.last() == w@);
            if j == 0 {
                assert(r@ =~= s[0]);
            } else {
                assert(r@ =~= join_words(tw.take(j as int)) + seq!['_'] + w@);
            }
        }
        j = j + 1;
    }
    assert(tw.take(j as int) =~= tw);
    r
}

/// The pieces that `drop_empty` keeps are not empty.
pub proof fn lemma_drop_empty_non_empty(pieces: Seq<Seq<char>>)
    ensures
        forall|i: int|
            0 <= i < drop_empty(pieces).len() ==> #[trigger] drop_empty(pieces)[i].len() > 0,
    decreases pieces.len(),
{
    if pieces.len() > 0 {
        lemma_drop_empty_non_empty(pieces.drop_last());
        let d = drop_empty(pieces.drop_last());
        if pieces.last().len() > 0 {
            assert forall|i: int|
                0 <= i < drop_empty(pieces).len() implies #[trigger] drop_empty(pieces)[i].len()
                > 0 by {
                if i < d.len() {
                    assert(drop_empty(pieces)[i] == d[i]);
                }
            }
        }
    }
}

/// `region`, a slash, then `key`.
fn region_name(region: &str, key: &Vec<char>) -> (r: String)
    ensures
        r@ == region@ + seq!['/'] + key@,
{
    let mut c = chars_of(region);
    c.push('/');
    extend_chars(&mut c, key);
    string_of(&c)
}

/// The names tried for `key`: itself, then under each region.
pub fn zone_candidates_of(key: &Vec<char>) -> (r: Vec<String>)
    ensures
        string_views(r@) == zone_candidates(key@),
{
    let mut r: Vec<String> = Vec::new();
    r.push(string_of(key));
    r.push(region_name("Africa", key));
    r.push(region_name("Australia", key));
    r.push(region_name("Asia", key));
    r.push(region_name("Europe", key));
    r.push(region_name("America", key));
    r.push(region_name("Pacific", key));
    assert(string_views(r@) =~= zone_candidates(key@));
    r
}

/// The first of `names` whose flag in `known` is set: the zone picked once
/// each candidate name has been looked up.
pub fn first_known_zone(names: &Vec<String>, known: &Vec<bool>) -> (r: Option<String>)
    ensures
        opt_view(r) == first_flagged(string_views(names@), known@),
{
    let mut i: usize = 0;
    assert(string_views(names@).skip(0) =~= string_views(names@));
    assert(known@.skip(0) =~= known@);
    while i < names.len() && i < known.len()
        invariant
            i <= names.len(),
            i <= known.len(),
            first_flagged(string_views(names@), known@) == first_flagged(
                string_views(names@).skip(i as int),
                known@.skip(i as int),
            ),
        decreases names.len() - i,
    {
        assert(string_views(names@).skip(i as int).drop_first() =~= string_views(names@).skip(
            i + 1,
        ));
        assert(known@.skip(i as int).drop_first() =~= known@.skip(i + 1));
        if known[i] {
            return Some(names[i].clone());
        }
        i = i + 1;
    }
    assert(string_views(names@).skip(i as int).len() == 0 || known@.skip(i as int).len() == 0);
    None
}

/// Flags that agree with the zone table pick the first known zone.
pub proof fn lemma_first_flagged(names: Seq<Seq<char>>, known: Seq<bool>)
    requires
        names.len() == known.len(),
        forall|i: int| 0 <= i < names.len() ==> known[i] == is_zone_name(names[i]),
    ensures
        first_flagged(names, known) == first_zone(names),
    decreases names.len(),
{
    if names.len() > 0 {
        lemma_first_flagged(names.drop_first(), known.drop_first());
    }
}

/// The zone that the rest of `query` names once `keyword` is taken out, if any.
pub fn get_timezone(query: &str, keyword: &str) -> (r: Option<String>)
    requires
        contains(query@, keyword@),
    ensures
        opt_view(r) == resolve_zone(query@, keyword@),
{
    let q = chars_of(query);
    let k = chars_of(keyword);
    let i = match find(&q, &k) {
        Some(i) => i,
        None => {
            return None;
        },
    };
    proof {
        lemma_first_occurrence(q@, k@, i as int);
    }
    let mut rest = slice_of(&q, 0, i);
    let tail = slice_of(&q, i + k.len(), q.len());
    extend_chars(&mut rest, &tail);
    assert(rest@ =~= remainder(query@, keyword@));
    let t = trimmed(&rest);
    if t.len() == 0 {
        return None;
    }
    let key = zone_key_of(&t);
    let names = zone_candidates_of(&key);
    let mut known: Vec<bool> = Vec::new();
    let mut j: usize = 0;
    while j < names.len()
        invariant
            j <= names.len(),
            known.len() == j,
            forall|m: int| 0 <= m < j ==> known@[m] == is_zone_name(names@[m]@),
        decreases names.len() - j,
    {
        known.push(zone_exists(names[j].as_str()));
        j = j + 1;
    }
    proof {
        lemma_first_flagged(string_views(names@), known@);
    }
    first_known_zone(&names, &known)
}

/// The level of the `keyword` source for `query`, given the zone resolved.
pub fn keyword_level_of(query: &str, keyword: &str, zone: &Option<String>) -> (r: MatchLevel)
    ensures
        r == keyword_level(query@, keyword@, opt_view(*zone)),
{
    if !contains_exec(&chars_of(query), &chars_of(keyword)) {
        MatchLevel::NoMatch
    } else if zone.is_some() || crate::suggestion::same_text(query, keyword) {
        MatchLevel::Exact
    } else {
        MatchLevel::Contained
    }
}

/// The level of the `keyword` source for `query`, with the zone resolved.
pub fn keyword_match(query: &str, keyword: &str) -> (r: (MatchLevel, Option<String>))
    ensures
        opt_view(r.1) == keyword_zone(query@, keyword@),
        r.0 == keyword_level(query@, keyword@, keyword_zone(query@, keyword@)),
{
    let zone = if contains_exec(&chars_of(query), &chars_of(keyword)) {
        get_timezone(query, keyword)
    } else {
        None
    };
    let level = keyword_level_of(query, keyword, &zone);
    (level, zone)
}

/// The time, here or in a resolved zone.
#[derive(Clone, Debug)]
pub struct TimeSuggestion {
    pub time_zone: Option<String>,
}

/// The date, here or in a resolved zone.
#[derive(Clone, Debug)]
pub struct DateSuggestion {
    pub time_zone: Option<String>,
}

impl TimeSuggestion {
    /// The level for `query` and the time suggestion it asks for.
    pub fn resolve(query: &str) -> (r: (MatchLevel, TimeSuggestion))
        ensures
            r.0 == keyword_level(query@, "time"@, keyword_zone(query@, "time"@)),
            opt_view(r.1.time_zone) == keyword_zone(query@, "time"@),
    {
        let (level, zone) = keyword_match(query, "time");
        (level, TimeSuggestion { time_zone: zone })
    }

    /// Showing the time needs nothing more once committed to.
    pub fn action(&self) -> (r: Action)
        ensures
            r is Close,
    {
        Action::Close
    }
}

impl DateSuggestion {
    /// The level for `query` and the date suggestion it asks for.
    pub fn resolve(query: &str) -> (r: (MatchLevel, DateSuggestion))
        ensures
            r.0 == keyword_level(query@, "date"@, keyword_zone(query@, "date"@)),
            opt_view(r.1.time_zone) == keyword_zone(query@, "date"@),
    {
        let (level, zone) = keyword_match(query, "date");
        (level, DateSuggestion { time_zone: zone })
    }

    /// Showing the date needs nothing more once committed to.
    pub fn action(&self) -> (r: Action)
        ensures
            r is Close,
    {
        Action::Close
    }
}

impl Suggestion for TimeSuggestion {
    open spec fn level(&self, query: Seq<char>) -> MatchLevel {
        keyword_level(query, "time"@, keyword_zone(query, "time"@))
    }

    fn matches(&self, query: &str) -> (r: MatchLevel) {
        TimeSuggestion::resolve(query).0
    }
}

impl Suggestion for DateSuggestion {
    open spec fn level(&self, query: Seq<char>) -> MatchLevel {
        keyword_level(query, "date"@, keyword_zone(query, "date"@))
    }

    fn matches(&self, query: &str) -> (r: MatchLevel) {
        DateSuggestion::resolve(query).0
    }
}

/// The source of the time and date candidates.
pub struct TimeDateModule;

impl TimeDateModule {
    pub fn new() -> Self {
        TimeDateModule
    }
}

/// What the time and date source offers for `query`: the time, then the
/// date, each with its level and resolved zone.
pub open spec fn time_date_offers(query: Seq<char>) -> Seq<Offer> {
    seq![
        (
            keyword_level(query, "time"@, keyword_zone(query, "time"@)),
            CandidateView::Time(keyword_zone(query, "time"@)),
        ),
        (
            keyword_level(query, "date"@, keyword_zone(query, "date"@)),
            CandidateView::Date(keyword_zone(query, "date"@)),
        ),
    ]
}

impl SuggestionModule for TimeDateModule {
    open spec fn offers(&self, query: Seq<char>) -> Seq<Offer> {
        time_date_offers(query)
    }

    fn get_matches(&self, query: &str, v: &mut VecDeque<Candidate>) {
        let ghost start = cands_view(v@);
        let ghost offers = self.offers(query@);
        let (tl, t) = TimeSuggestion::resolve(query);
        place_exec(v, tl, Candidate::Time(t));
        let ghost mid = cands_view(v@);
        let (dl, d) = DateSuggestion::resolve(query);
        place_exec(v, dl, Candidate::Date(d));
        proof {
            assert(offers.drop_last().drop_last() =~= Seq::<Offer>::empty());
            assert(merge(start, offers.drop_last().drop_last()) == start);
            assert(merge(start, offers.drop_last()) == mid);
        }
    }
}

} // verus!
