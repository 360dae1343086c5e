use vstd::prelude::*;
use crate::model::{Part, PartsError};
use crate::repository::{PartsRepository, PartsRepositoryTrait};
use crate::validation::validate;

verus! {

/// The largest identifier in `parts`, or 0 when it is empty.
pub open spec fn max_id(parts: Seq<Part>) -> u32
    decreases parts.len(),
{
    if parts.len() == 0 {
        0
    } else {
        let m = max_id(parts.drop_last());
        if parts.last().id > m {
            parts.last().id
        } else {
            m
        }
    }
}

/// The part that adding `candidate` to `parts` stores: the candidate with
/// the identifier one above the largest in use.
pub open spec fn added(parts: Seq<Part>, candidate: Part) -> Part {
    crate::model::with_id(candidate, (max_id(parts) + 1) as u32)
}

/// `parts` without every part whose identifier is `id`.
pub open spec fn without_id(parts: Seq<Part>, id: u32) -> Seq<Part> {
    parts.filter(|p: Part| p.id != id)
}

/// The identifier for a new part: one above the largest in use, or 1 for an
/// empty collection.
pub fn next_id(parts: &Vec<Part>) -> (r: u32)
    requires
        max_id(parts@) < u32::MAX,
    ensures
        r == max_id(parts@) + 1,
{
    let mut m: u32 = 0;
    let mut i: usize = 0;
    while i < parts.len()
        invariant
            i <= parts@.len(),
            m == max_id(parts@.subrange(0, i as int)),
        decreases parts@.len() - i,
    {
        proof {
            assert(parts@.subrange(0, i + 1).drop_last() =~= parts@.subrange(0, i as int));
        }
        if parts[i].id > m {
            m = parts[i].id;
        }
        i = i + 1;
    }
    assert(parts@.subrange(0, parts@.len() as int) =~= parts@);
    m + 1
}

/// Adds `candidate` to `parts` under a fresh identifier, once its fields
/// pass validation; returns the new collection and the stored part.
pub fn plan_add(parts: Vec<Part>, candidate: Part) -> (r: Result<(Vec<Part>, Part), PartsError>)
    requires
        max_id(parts@) < u32::MAX,
    ensures
        match crate::validation::first_violation(candidate) {
            None => match r {
                Ok((all, p)) => p == added(parts@, candidate) && all@ == parts@.push(p),
                Err(_) => false,
            },
            Some(v) => crate::validation::rejected_for(r, v),
        },
{
    let mut part = candidate;
    part.id = next_id(&parts);
    match validate(&part) {
        Err(e) => Err(e),
        Ok(()) => {
            let mut all = parts;
            all.push(part.clone());
            Ok((all, part))
        },
    }
}

/// Replaces the first part of `parts` with identifier `id` by `replacement`,
/// which keeps `id`, once its fields pass validation; returns the new
/// collection and the stored part.
pub fn plan_update(parts: Vec<Part>, id: u32, replacement: Part) -> (r: Result<
    (Vec<Part>, Part),
    PartsError,
>)
    ensures
        !crate::repository::has_id(parts@, id) ==> r matches Err(PartsError::NotFound),
        crate::repository::has_id(parts@, id) ==> match crate::validation::first_violation(
            replacement,
        ) {
            None => match r {
                Ok((all, p)) => p == crate::model::with_id(replacement, id) && exists|i: int|
                    crate::repository::first_match(parts@, id, i) && all@ == parts@.update(i, p),
                Err(_) => false,
            },
            Some(v) => crate::validation::rejected_for(r, v),
        },
{
    let mut index: usize = 0;
    while index < parts.len() && parts[index].id != id
        invariant
            index <= parts@.len(),
            forall|j: int| 0 <= j < index ==> (#[trigger] parts@[j]).id != id,
        decreases parts@.len() - index,
    {
        index = index + 1;
    }
    if index == parts.len() {
        return Err(PartsError::NotFound);
    }
    assert(crate::repository::first_match(parts@, id, index as int));
    let mut part = replacement;
    part.id = id;
    match validate(&part) {
        Err(e) => Err(e),
        Ok(()) => {
            let mut all = parts;
            all.set(index, part.clone());
            Ok((all, part))
        },
    }
}

/// Removes every part of `parts` with identifier `id`; fails with
/// `NotFound` when there is none.
pub fn plan_delete(parts: Vec<Part>, id: u32) -> (r: Result<Vec<Part>, PartsError>)
    ensures
        match r {
            Ok(rest) => crate::repository::has_id(parts@, id) && rest@ == without_id(parts@, id),
            Err(e) => e is NotFound && !crate::repository::has_id(parts@, id),
        },
{
    let mut rest: Vec<Part> = Vec::new();
    let mut found = false;
    let mut i: usize = 0;
    while i < parts.len()
        invariant
            i <= parts@.len(),
            rest@ == without_id(parts@.subrange(0, i as int), id),
            found == crate::repository::has_id(parts@.subrange(0, i as int), id),
        decreases parts@.len() - i,
    {
        proof {
            reveal(Seq::filter);
            assert(parts@.subrange(0, i + 1).drop_last() =~= parts@.subrange(0, i as int));
        }
        if parts[i].id == id {
            found = true;
        } else {
            rest.push(parts[i].clone());
        }
        i = i + 1;
        proof {
            let pre = parts@.subrange(0, i as int);
            if !found {
                assert forall|k: int| 0 <= k < pre.len() implies (#[trigger] pre[k]).id != id by {
                    if k < i - 1 {
                        assert(pre[k] == parts@.subrange(0, i - 1)[k]);
                    }
                }
            } else {
                if parts@[i - 1].id == id {
                    assert(pre[i - 1].id == id);
                } else {
                    let w = choose|k: int| 0 <= k < i - 1 && (#[trigger] parts@.subrange(0, i - 1)[k]).id == id;
                    assert(pre[w] == parts@.subrange(0, i - 1)[w]);
                }
            }
        }
    }
    assert(parts@.subrange(0, parts@.len() as int) =~= parts@);
    if !found {
        return Err(PartsError::NotFound);
    }
    Ok(rest)
}

/// Enforces the rules on parts and keeps them in a repository; every
/// change reads the whole collection, applies the change and writes the
/// whole collection back.
pub struct PartsService<R: PartsRepositoryTrait> {
    repository: R,
}

impl<R: PartsRepositoryTrait> PartsService<R> {
    /// The collection held by the service's repository.
    pub closed spec fn stored(&self) -> Seq<Part> {
        self.repository.stored()
    }

    /// A service over `repository`.
    pub fn new(repository: R) -> (r: Self)
        ensures
            r.stored() == repository.stored(),
    {
        PartsService { repository }
    }

    /// All parts, in stored order.
    pub fn get_all(&self) -> (r: Result<Vec<Part>, PartsError>)
        ensures
            match r {
                Ok(parts) => parts@ == self.stored(),
                Err(e) => crate::model::is_storage_error(e),
            },
    {
        self.repository.get_all()
    }

    /// The first stored part with identifier `id`; `NotFound` when there is
    /// none.
    pub fn get_by_id(&self, id: u32) -> (r: Result<Part, PartsError>)
        ensures
            match r {
                Err(e) if crate::model::is_storage_error(e) => true,
                _ => crate::repository::lookup_ok(self.stored(), id, r),
            },
    {
        self.repository.get_by_id(id)
    }

    /// Stores `new_part` under the identifier one above the largest in use,
    /// once its fields pass validation, and returns the stored part.
    pub fn add(&mut self, new_part: Part) -> (r: Result<Part, PartsError>)
        requires
            max_id(old(self).stored()) < u32::MAX,
        ensures
            match r {
                Ok(p) => {
                    &&& crate::validation::valid_part(new_part)
                    &&& p == added(old(self).stored(), new_part)
                    &&& final(self).stored() == old(self).stored().push(p)
                },
                Err(e) => {
                    &&& final(self).stored() == old(self).stored()
                    &&& crate::model::is_storage_error(e) || match crate::validation::first_violation(
                        new_part,
                    ) {
                        Some(v) => crate::validation::rejected_for(r, v),
                        None => false,
                    }
                },
            },
    {
        let parts = match self.repository.get_all() {
            Ok(parts) => parts,
            Err(e) => return Err(e),
        };
        match plan_add(parts, new_part) {
            Err(e) => Err(e),
            Ok((all, part)) => match self.repository.save_all(all) {
                Ok(()) => Ok(part),
                Err(e) => Err(e),
            },
        }
    }

    /// Replaces the stored part with identifier `id` by `updated_part`, which
    /// keeps `id` whatever identifier it carried, once its fields pass
    /// validation; returns the stored part.
    pub fn update(&mut self, id: u32, updated_part: Part) -> (r: Result<Part, PartsError>)
        ensures
            match r {
                Ok(p) => {
                    &&& crate::validation::valid_part(updated_part)
                    &&& p == crate::model::with_id(updated_part, id)
                    &&& exists|i: int|
                        crate::repository::first_match(old(self).stored(), id, i)
                            && final(self).stored() == old(self).stored().update(i, p)
                },
                Err(e) => {
                    &&& final(self).stored() == old(self).stored()
                    &&& crate::model::is_storage_error(e) || if !crate::repository::has_id(
                        old(self).stored(),
                        id,
                    ) {
                        e is NotFound
                    } else {
                        match crate::validation::first_violation(updated_part) {
                            Some(v) => crate::validation::rejected_for(r, v),
                            None => false,
                        }
                    }
                },
            },
    {
        let parts = match self.repository.get_all() {
            Ok(parts) => parts,
            Err(e) => return Err(e),
        };
        let ghost before = parts@;
        match plan_update(parts, id, updated_part) {
            Err(e) => Err(e),
            Ok((all, part)) => match self.repository.save_all(all) {
                Ok(()) => {
                    assert(before == old(self).stored());
                    Ok(part)
                },
                Err(e) => Err(e),
            },
        }
    }

    /// Removes every stored part with identifier `id`; `NotFound` when there
    /// is none.
    pub fn delete(&mut self, id: u32) -> (r: Result<(), PartsError>)
        ensures
            match r {
                Ok(()) => {
                    &&& crate::repository::has_id(old(self).stored(), id)
                    &&& final(self).stored() == without_id(old(self).stored(), id)
                },
                Err(e) => {
                    &&& final(self).stored() == old(self).stored()
                    &&& crate::model::is_storage_error(e) || (e is NotFound
                        && !crate::repository::has_id(old(self).stored(), id))
                },
            },
    {
        let parts = match self.repository.get_all() {
            Ok(parts) => parts,
            Err(e) => return Err(e),
        };
        match plan_delete(parts, id) {
            Err(e) => Err(e),
            Ok(rest) => self.repository.save_all(rest),
        }
    }
}

impl Default for PartsService<PartsRepository> {
    /// A service over an in-memory repository that holds no part yet.
    fn default() -> (r: PartsService<PartsRepository>)
        ensures
            r.stored() == Seq::<Part>::empty(),
    {
        PartsService { repository: PartsRepository::default() }
    }
}

} // verus!
