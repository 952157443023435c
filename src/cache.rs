//! The cache of scanned applications and executables, and its binary form.
use std::rc::Rc;
use vstd::prelude::*;

use crate::executable::{executables_view, ExecView, ExecutableSuggestion};
use crate::program::{programs_view, ProgramSuggestion, ProgramView};

verus! {

/// The result of one scan: the applications of the desktop entries and the
/// files of the executable search path.
#[derive(Debug, Default)]
pub struct LanchCache {
    pub programs: Vec<ProgramSuggestion>,
    pub executables: Vec<ExecutableSuggestion>,
}

/// A cache as plain values: its applications and its executables.
pub type CacheView = (Seq<ProgramView>, Seq<ExecView>);

impl View for LanchCache {
    type V = CacheView;

    open spec fn view(&self) -> CacheView {
        (
            self.programs@.map_values(|p: ProgramSuggestion| p@),
            self.executables@.map_values(|e: ExecutableSuggestion| e@),
        )
    }
}

/// A cache whose entries can be shared.
pub struct LanchCacheRc {
    pub programs: Vec<Rc<ProgramSuggestion>>,
    pub executables: Vec<Rc<ExecutableSuggestion>>,
}

impl View for LanchCacheRc {
    type V = CacheView;

    open spec fn view(&self) -> CacheView {
        (programs_view(self.programs@), executables_view(self.executables@))
    }
}

impl LanchCacheRc {
    /// The entries of `value`, each made shareable, in the same order.
    pub fn from(value: LanchCache) -> (r: Self)
        ensures
            r@ == value@,
    {
        let ghost pv = value@;
        let mut programs: Vec<Rc<ProgramSuggestion>> = Vec::new();
        for p in iter: value.programs.into_iter()
            invariant
                iter.seq() == value.programs@,
                programs_view(programs@) == pv.0.take(iter.index() as int),
                pv == value@,
        {
            let ghost before = programs@;
            programs.push(Rc::new(p));
            assert(programs_view(programs@) =~= programs_view(before).push(p@));
            assert(pv.0.take(iter.index() + 1) =~= pv.0.take(iter.index() as int).push(p@));
        }
        let mut executables: Vec<Rc<ExecutableSuggestion>> = Vec::new();
        for e in iter: value.executables.into_iter()
            invariant
                iter.seq() == value.executables@,
                executables_view(executables@) == pv.1.take(iter.index() as int),
                programs_view(programs@) == pv.0,
                pv == value@,
        {
            let ghost before = executables@;
            executables.push(Rc::new(e));
            assert(executables_view(executables@) =~= executables_view(before).push(e@));
            assert(pv.1.take(iter.index() + 1) =~= pv.1.take(iter.index() as int).push(e@));
        }
        let r = LanchCacheRc { programs, executables };
        assert(r@.0 =~= pv.0);
        assert(r@.1 =~= pv.1);
        r
    }
}

/// Why bytes could not be turned back into a cache.
#[derive(Clone, Copy, Debug, PartialEq, Eq, Structural)]
pub enum CacheError {
    /// The bytes are not the encoding of a cache.
    Decode,
}

#[verifier::external_type_specification]
#[verifier::external_body]
pub struct ExBincodeErrorKind(bincode::ErrorKind);

/// The name of the bytes that bincode's `serialize` gives for a cache with
/// these contents: a length-prefixed encoding of the applications (name,
/// command line, optional icon path) and then the executables (name, path).
pub uninterp spec fn bincode_of(c: CacheView) -> Seq<u8>;

/// Relies on `bincode::serialize`: the bytes it gives for the cache's fields
/// depend on their contents alone, and it succeeds on them, as it sets no
/// size limit and strings, vectors, options and tuples all have a known length.
#[verifier::external_body]
fn serialize_cache(c: &LanchCache) -> (r: Result<Vec<u8>, Box<bincode::ErrorKind>>)
    ensures
        r is Ok,
        r matches Ok(b) ==> b@ == bincode_of(c@),
{
    let programs: Vec<(&String, &String, &Option<String>)> =
        c.programs.iter().map(|p| (&p.name, &p.command_line, &p.icon)).collect();
    let executables: Vec<(&String, &String)> =
        c.executables.iter().map(|e| (&e.name, &e.path)).collect();
    bincode::serialize(&(programs, executables))
}

/// `r` decoded `bytes`: when they are the encoding of a cache, `r` is that cache.
pub open spec fn inverts_encoding<E>(bytes: Seq<u8>, r: Result<LanchCache, E>) -> bool {
    forall|c: CacheView| #[trigger] bincode_of(c) == bytes ==> (r matches Ok(d) && d@ == c)
}

/// Relies on `bincode::deserialize`, the inverse of `bincode::serialize`: the
/// bytes that a cache was encoded to decode to that cache.
#[verifier::external_body]
fn deserialize_cache(bytes: &[u8]) -> (r: Result<LanchCache, Box<bincode::ErrorKind>>)
    ensures
        inverts_encoding(bytes@, r),
{
    let (programs, executables): (Vec<(String, String, Option<String>)>, Vec<(String, String)>) =
        bincode::deserialize(bytes)?;
    Ok(LanchCache {
        programs: programs.into_iter().map(|(name, command_line, icon)|
            ProgramSuggestion { name, command_line, icon }).collect(),
        executables: executables.into_iter().map(|(name, path)|
            ExecutableSuggestion { name, path }).collect(),
    })
}

/// `r` is what decoding `bytes` may give: the cache they encode, when they
/// encode one, or a decoding error.
pub open spec fn decodes(bytes: Seq<u8>, r: Result<LanchCache, CacheError>) -> bool {
    &&& inverts_encoding(bytes, r)
    &&& r matches Err(e) ==> e == CacheError::Decode
}

impl LanchCache {
    /// The binary form of the cache, as it is stored on disk.
    pub fn encode(&self) -> (r: Vec<u8>)
        ensures
            r@ == bincode_of(self@),
    {
        match serialize_cache(self) {
            Ok(b) => b,
            // unreachable: `serialize_cache` always succeeds
            Err(_) => Vec::new(),
        }
    }

    /// The cache that `bytes` encode.
    pub fn decode(bytes: &[u8]) -> (r: Result<LanchCache, CacheError>)
        ensures
            decodes(bytes@, r),
    {
        match deserialize_cache(bytes) {
            Ok(c) => Ok(c),
            Err(_) => Err(CacheError::Decode),
        }
    }
}

/// Round trip: decoding the bytes that encoding a cache gives yields a cache
/// with the same contents.
pub proof fn lemma_cache_round_trip(c: CacheView, decoded: Result<LanchCache, CacheError>)
    requires
        decodes(bincode_of(c), decoded),
    ensures
        decoded matches Ok(d) && d@ == c,
{
}

} // verus!
