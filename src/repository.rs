use vstd::prelude::*;
use crate::model::{Part, PartsError};

verus! {

/// Whether `parts[i]` is the first part of `parts` with identifier `id`.
pub open spec fn first_match(parts: Seq<Part>, id: u32, i: int) -> bool {
    &&& 0 <= i < parts.len()
    &&& parts[i].id == id
    &&& forall|j: int| 0 <= j < i ==> (#[trigger] parts[j]).id != id
}

/// Whether some part of `parts` has identifier `id`.
pub open spec fn has_id(parts: Seq<Part>, id: u32) -> bool {
    exists|i: int| 0 <= i < parts.len() && (#[trigger] parts[i]).id == id
}

/// The outcome of looking `id` up in `parts`: the first part that has it,
/// else `NotFound`.
pub open spec fn lookup_ok(parts: Seq<Part>, id: u32, r: Result<Part, PartsError>) -> bool {
    match r {
        Ok(p) => exists|i: int| first_match(parts, id, i) && p == parts[i],
        Err(e) => e is NotFound && !has_id(parts, id),
    }
}

/// Returns the first part of `parts` whose identifier is `id`.
pub fn find_by_id(parts: &Vec<Part>, id: u32) -> (r: Result<Part, PartsError>)
    ensures
        lookup_ok(parts@, id, r),
{
    let mut i: usize = 0;
    while i < parts.len()
        invariant
            i <= parts@.len(),
            forall|j: int| 0 <= j < i ==> (#[trigger] parts@[j]).id != id,
        decreases parts@.len() - i,
    {
        if parts[i].id == id {
            let found = parts[i].clone();
            assert(first_match(parts@, id, i as int));
            return Ok(found);
        }
        i = i + 1;
    }
    Err(PartsError::NotFound)
}

/// Loads and replaces the whole collection of parts held by a storage
/// resource.
pub trait PartsRepositoryTrait {
    /// The collection that the storage resource holds now; each verified
    /// implementation defines it over its own state.
    closed spec fn stored(&self) -> Seq<Part> {
        Seq::empty()
    }

    /// Reads the whole collection; a resource that does not exist yet reads
    /// as an empty one.
    fn get_all(&self) -> (r: Result<Vec<Part>, PartsError>)
        ensures
            match r {
                Ok(parts) => parts@ == self.stored(),
                Err(e) => crate::model::is_storage_error(e),
            },
    ;

    /// Replaces the whole collection with `parts`; on failure the resource
    /// keeps what it held.
    fn save_all(&mut self, parts: Vec<Part>) -> (r: Result<(), PartsError>)
        ensures
            match r {
                Ok(()) => final(self).stored() == parts@,
                Err(e) => final(self).stored() == old(self).stored()
                    && crate::model::is_storage_error(e),
            },
    ;

    /// Reads the collection and returns its first part with identifier
    /// `id`.
    fn get_by_id(&self, id: u32) -> (r: Result<Part, PartsError>)
        ensures
            match r {
                Err(e) if crate::model::is_storage_error(e) => true,
                _ => lookup_ok(self.stored(), id, r),
            },
    {
        match self.get_all() {
            Ok(parts) => find_by_id(&parts, id),
            Err(e) => Err(e),
        }
    }
}

/// A storage resource held in memory.
pub struct PartsRepository {
    parts: Vec<Part>,
}

impl PartsRepository {
    /// A repository over the collection `parts`.
    pub fn with_parts(parts: Vec<Part>) -> (r: PartsRepository)
        ensures
            r.stored() == parts@,
    {
        PartsRepository { parts }
    }
}

impl Default for PartsRepository {
    /// A repository whose resource does not exist yet, which reads as empty.
    fn default() -> (r: PartsRepository)
        ensures
            r.stored() == Seq::<Part>::empty(),
    {
        PartsRepository { parts: Vec::new() }
    }
}

impl PartsRepositoryTrait for PartsRepository {
    closed spec fn stored(&self) -> Seq<Part> {
        self.parts@
    }

    fn get_all(&self) -> (r: Result<Vec<Part>, PartsError>)
        ensures
            r is Ok,
    {
        let mut out: Vec<Part> = Vec::new();
        let mut i: usize = 0;
        while i < self.parts.len()
            invariant
                i <= self.parts@.len(),
                out@ == self.parts@.subrange(0, i as int),
            decreases self.parts@.len() - i,
        {
            out.push(self.parts[i].clone());
            i = i + 1;
            assert(out@ =~= self.parts@.subrange(0, i as int));
        }
        assert(out@ =~= self.parts@);
        Ok(out)
    }

    fn save_all(&mut self, parts: Vec<Part>) -> (r: Result<(), PartsError>)
        ensures
            r is Ok,
    {
        self.parts = parts;
        Ok(())
    }
}

} // verus!
