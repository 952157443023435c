//! Reading the scanned sources: desktop-entry files and the executable
//! search path. The directory walks themselves belong to the caller.
use vstd::prelude::*;

use crate::executable::{ExecView, ExecutableSuggestion};
use crate::suggestion::{opt_view, string_views};
use crate::text::{chars_of, occurs_at_exec, slice_of, split_chars, split_on, string_of, views};

verus! {

/// `line` without one carriage return at its end.
pub open spec fn strip_cr(line: Seq<char>) -> Seq<char> {
    if line.len() > 0 && line.last() == '\r' {
        line.drop_last()
    } else {
        line
    }
}

/// The lines of `text`: the pieces between line feeds, each without a
/// carriage return at its end.
pub open spec fn lines(text: Seq<char>) -> Seq<Seq<char>> {
    split_on(text, '\n').map_values(|l: Seq<char>| strip_cr(l))
}

/// The value that `line` gives to the key `prefix` (such as `Name=`): what
/// follows the prefix, when the line begins with it and something follows.
pub open spec fn key_value(line: Seq<char>, prefix: Seq<char>) -> Option<Seq<char>> {
    if line.len() > prefix.len() && line.take(prefix.len() as int) == prefix {
        Some(line.skip(prefix.len() as int))
    } else {
        None
    }
}

/// The first value that `ls` gives to the key `prefix`.
pub open spec fn first_value(ls: Seq<Seq<char>>, prefix: Seq<char>) -> Option<Seq<char>>
    decreases ls.len(),
{
    if ls.len() == 0 {
        None
    } else {
        match key_value(ls[0], prefix) {
            Some(v) => Some(v),
            None => first_value(ls.drop_first(), prefix),
        }
    }
}

/// The fields of a desktop entry as plain values: name, command line, raw
/// icon name.
pub type EntryView = (Seq<char>, Seq<char>, Option<Seq<char>>);

/// What a desktop-entry file yields: the first non-empty `Name`, `Exec` and
/// `Icon` values, when it has both a name and a command line.
pub open spec fn parse_entry(text: Seq<char>) -> Option<EntryView> {
    let ls = lines(text);
    match (first_value(ls, "Name="@), first_value(ls, "Exec="@)) {
        (Some(n), Some(e)) => Some((n, e, first_value(ls, "Icon="@))),
        _ => None,
    }
}

/// The fields read from a desktop entry; the icon is the raw name, before any
/// theme lookup.
#[derive(Clone, Debug)]
pub struct EntryFields {
    pub name: String,
    pub command_line: String,
    pub icon: Option<String>,
}

impl View for EntryFields {
    type V = EntryView;

    open spec fn view(&self) -> EntryView {
        (self.name@, self.command_line@, opt_view(self.icon))
    }
}

/// The value that `line` gives to the key `prefix`.
pub fn value_of(line: &Vec<char>, prefix: &Vec<char>) -> (r: Option<Vec<char>>)
    ensures
        match r {
            Some(v) => key_value(line@, prefix@) == Some(v@),
            None => key_value(line@, prefix@) is None,
        },
{
    if line.len() > prefix.len() && occurs_at_exec(line, prefix, 0) {
        assert(line@.subrange(0, prefix@.len() as int) =~= line@.take(prefix@.len() as int));
        let v = slice_of(line, prefix.len(), line.len());
        assert(v@ =~= line@.skip(prefix@.len() as int));
        Some(v)
    } else {
        assert(line@.len() > prefix@.len() ==> line@.subrange(0, prefix@.len() as int)
            =~= line@.take(prefix@.len() as int));
        None
    }
}

/// The first value seen so far, or the first in what is left.
pub open spec fn found_or_rest(
    found: Option<Vec<char>>,
    ls: Seq<Seq<char>>,
    i: int,
    prefix: Seq<char>,
) -> Option<Seq<char>> {
    match found {
        Some(v) => Some(v@),
        None => first_value(ls.skip(i), prefix),
    }
}

/// Reads a desktop-entry file: the first non-empty `Name=`, `Exec=` and
/// `Icon=` values win, and reading stops once all three are found. A file
/// without a name or without a command line yields nothing.
pub fn parse_desktop_entry(text: &str) -> (r: Option<EntryFields>)
    ensures
        match r {
            Some(f) => parse_entry(text@) == Some(f@),
            None => parse_entry(text@) is None,
        },
{
    let raw = split_chars(&chars_of(text), '\n');
    let ghost ls = lines(text@);
    let name_key = chars_of("Name=");
    let exec_key = chars_of("Exec=");
    let icon_key = chars_of("Icon=");
    let mut name: Option<Vec<char>> = None;
    let mut exec: Option<Vec<char>> = None;
    let mut icon: Option<Vec<char>> = None;
    let mut i: usize = 0;
    assert(ls.skip(0) =~= ls);
    while i < raw.len()
        invariant
            i <= raw.len(),
            ls == lines(text@),
            views(raw@) == split_on(text@, '\n'),
            name_key@ == "Name="@,
            exec_key@ == "Exec="@,
            icon_key@ == "Icon="@,
            first_value(ls, "Name="@) == found_or_rest(name, ls, i as int, "Name="@),
            first_value(ls, "Exec="@) == found_or_rest(exec, ls, i as int, "Exec="@),
            first_value(ls, "Icon="@) == found_or_rest(icon, ls, i as int, "Icon="@),
        ensures
            ls == lines(text@),
            first_value(ls, "Name="@) == found_or_rest(name, ls, i as int, "Name="@),
            first_value(ls, "Exec="@) == found_or_rest(exec, ls, i as int, "Exec="@),
            first_value(ls, "Icon="@) == found_or_rest(icon, ls, i as int, "Icon="@),
            i == raw.len() || (name is Some && exec is Some && icon is Some),
            i <= raw.len(),
        decreases raw.len() - i,
    {
        if name.is_some() && exec.is_some() && icon.is_some() {
            break;
        }
        let piece = &raw[i];
        let line = if piece.len() > 0 && piece[piece.len() - 1] == '\r' {
            slice_of(piece, 0, piece.len() - 1)
        } else {
            slice_of(piece, 0, piece.len())
        };
        assert(line@ =~= ls[i as int]);
        assert(ls.skip(i as int).drop_first() =~= ls.skip(i + 1));
        assert(ls.skip(i as int)[0] == ls[i as int]);
        if name.is_none() {
            name = value_of(&line, &name_key);
        }
        if exec.is_none() {
            exec = value_of(&line, &exec_key);
        }
        if icon.is_none() {
            icon = value_of(&line, &icon_key);
        }
        i = i + 1;
    }
    assert(i == raw.len() ==> ls.skip(i as int) =~= Seq::<Seq<char>>::empty());
    match (name, exec) {
        (Some(n), Some(e)) => {
            let icon_name = match icon {
                Some(ic) => Some(string_of(&ic)),
                None => None,
            };
            Some(EntryFields { name: string_of(&n), command_line: string_of(&e), icon: icon_name })
        },
        _ => None,
    }
}

/// The directories searched for executables: the pieces of the search path
/// between colons, or `/bin` alone when no search path is set.
pub fn search_dirs(path: Option<&str>) -> (r: Vec<String>)
    ensures
        string_views(r@) == match path {
            Some(p) => split_on(p@, ':'),
            None => seq!["/bin"@],
        },
{
    let mut r: Vec<String> = Vec::new();
    match path {
        Some(p) => {
            let pieces = split_chars(&chars_of(p), ':');
            let mut i: usize = 0;
            while i < pieces.len()
                invariant
                    i <= pieces.len(),
                    views(pieces@) == split_on(p@, ':'),
                    string_views(r@) == views(pieces@).take(i as int),
                decreases pieces.len() - i,
            {
                let ghost before = r@;
                let s = string_of(&pieces[i]);
                r.push(s);
                assert(string_views(r@) =~= string_views(before).push(s@));
                assert(views(pieces@).take(i + 1) =~= views(pieces@).take(i as int).push(
                    pieces@[i as int]@,
                ));
                i = i + 1;
            }
            assert(views(pieces@).take(i as int) =~= views(pieces@));
        },
        None => {
            let s = "/bin".to_owned();
            r.push(s);
            assert(string_views(r@) =~= seq!["/bin"@]);
        },
    }
    r
}

/// A child of a search-path directory: its file name, its path, and whether
/// it is itself a directory.
#[derive(Clone, Debug)]
pub struct DirChild {
    pub name: String,
    pub path: String,
    pub is_dir: bool,
}

/// The executables among `children`: those that are not directories, in
/// the order listed, duplicates kept.
pub open spec fn executables_of(children: Seq<DirChild>) -> Seq<ExecView>
    decreases children.len(),
{
    if children.len() == 0 {
        Seq::empty()
    } else {
        let rest = executables_of(children.drop_last());
        let c = children.last();
        if c.is_dir {
            rest
        } else {
            rest.push((c.name@, c.path@))
        }
    }
}

/// The executables among the listed children of the search-path directories.
pub fn executables_from(children: &Vec<DirChild>) -> (r: Vec<ExecutableSuggestion>)
    ensures
        r@.map_values(|e: ExecutableSuggestion| e@) == executables_of(children@),
{
    let mut r: Vec<ExecutableSuggestion> = Vec::new();
    let mut i: usize = 0;
    assert(children@.take(0) =~= Seq::<DirChild>::empty());
    assert(r@.map_values(|e: ExecutableSuggestion| e@) =~= Seq::<ExecView>::empty());
    while i < children.len()
        invariant
            i <= children.len(),
            r@.map_values(|e: ExecutableSuggestion| e@) == executables_of(
                children@.take(i as int),
            ),
        decreases children.len() - i,
    {
        assert(children@.take(i + 1).drop_last() =~= children@.take(i as int));
        let c = &children[i];
        if !c.is_dir {
            let ghost before = r@;
            let e = ExecutableSuggestion::new(c.name.as_str(), c.path.as_str());
            r.push(e);
            assert(r@.map_values(|e: ExecutableSuggestion| e@) =~= before.map_values(
                |e: ExecutableSuggestion| e@,
            ).push(e@));
        }
        i = i + 1;
    }
    assert(children@.take(i as int) =~= children@);
    r
}

} // verus!
