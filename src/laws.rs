use vstd::prelude::*;
use crate::model::{Part, PartsError};
use crate::validation::Violation;

verus! {

/// Whether no two parts of `parts` share an identifier.
pub open spec fn unique_ids(parts: Seq<Part>) -> bool {
    forall|i: int, j: int|
        0 <= i < parts.len() && 0 <= j < parts.len() && i != j ==> (#[trigger] parts[i]).id
            != (#[trigger] parts[j]).id
}

/// Every identifier in `parts` is at most `max_id(parts)`.
pub proof fn lemma_max_id_is_upper_bound(parts: Seq<Part>)
    ensures
        forall|i: int| 0 <= i < parts.len() ==> (#[trigger] parts[i]).id <= crate::service::max_id(parts),
    decreases parts.len(),
{
    if parts.len() > 0 {
        lemma_max_id_is_upper_bound(parts.drop_last());
        assert forall|i: int| 0 <= i < parts.len() implies (#[trigger] parts[i]).id
            <= crate::service::max_id(parts) by {
            if i < parts.len() - 1 {
                assert(parts[i] == parts.drop_last()[i]);
            }
        }
    }
}

/// Reading twice with no change in between gives the same answer: a lookup
/// outcome is fixed by the collection and the identifier.
pub proof fn lemma_lookup_repeatable(
    parts: Seq<Part>,
    id: u32,
    first: Result<Part, PartsError>,
    second: Result<Part, PartsError>,
)
    requires
        crate::repository::lookup_ok(parts, id, first),
        crate::repository::lookup_ok(parts, id, second),
    ensures
        first == second,
{
    if first is Ok && second is Ok {
        let i = choose|i: int|
            crate::repository::first_match(parts, id, i) && first->Ok_0 == parts[i];
        let j = choose|j: int|
            crate::repository::first_match(parts, id, j) && second->Ok_0 == parts[j];
        if i < j {
            assert(parts[i].id != id);
        } else if j < i {
            assert(parts[j].id != id);
        }
    } else if first is Ok {
        let i = choose|i: int|
            crate::repository::first_match(parts, id, i) && first->Ok_0 == parts[i];
        assert(parts[i].id == id);
    } else if second is Ok {
        let j = choose|j: int|
            crate::repository::first_match(parts, id, j) && second->Ok_0 == parts[j];
        assert(parts[j].id == id);
    }
}

/// A part that was added is found by its identifier, with every field as
/// stored.
pub proof fn lemma_added_part_found(before: Seq<Part>, candidate: Part)
    requires
        crate::service::max_id(before) < u32::MAX,
    ensures
        ({
            let p = crate::service::added(before, candidate);
            crate::repository::lookup_ok(before.push(p), p.id, Ok(p))
        }),
{
    let p = crate::service::added(before, candidate);
    let after = before.push(p);
    lemma_max_id_is_upper_bound(before);
    assert forall|j: int| 0 <= j < before.len() implies (#[trigger] after[j]).id != p.id by {
        assert(after[j] == before[j]);
    }
    assert(crate::repository::first_match(after, p.id, before.len() as int));
}

/// Adding a part keeps the identifiers pairwise distinct.
pub proof fn lemma_add_keeps_ids_unique(before: Seq<Part>, candidate: Part)
    requires
        unique_ids(before),
        crate::service::max_id(before) < u32::MAX,
    ensures
        unique_ids(before.push(crate::service::added(before, candidate))),
{
    let p = crate::service::added(before, candidate);
    let after = before.push(p);
    lemma_max_id_is_upper_bound(before);
    assert forall|i: int, j: int|
        0 <= i < after.len() && 0 <= j < after.len() && i != j implies (#[trigger] after[i]).id
        != (#[trigger] after[j]).id by {
        if i < before.len() && j < before.len() {
            assert(after[i] == before[i] && after[j] == before[j]);
        } else if i < before.len() {
            assert(after[i] == before[i]);
        } else {
            assert(after[j] == before[j]);
        }
    }
}

/// The collection left by a run of adds of `candidates`, in order, each
/// rejected candidate leaving the collection as it was.
pub open spec fn after_adds(start: Seq<Part>, candidates: Seq<Part>) -> Seq<Part>
    decreases candidates.len(),
{
    if candidates.len() == 0 {
        start
    } else {
        let prev = after_adds(start, candidates.drop_last());
        if crate::validation::valid_part(candidates.last()) {
            prev.push(crate::service::added(prev, candidates.last()))
        } else {
            prev
        }
    }
}

/// A run of adds raises the largest identifier by at most one per add.
pub proof fn lemma_after_adds_max_id(start: Seq<Part>, candidates: Seq<Part>)
    requires
        crate::service::max_id(start) + candidates.len() < u32::MAX,
    ensures
        crate::service::max_id(after_adds(start, candidates)) <= crate::service::max_id(start)
            + candidates.len(),
    decreases candidates.len(),
{
    if candidates.len() > 0 {
        let prev = after_adds(start, candidates.drop_last());
        lemma_after_adds_max_id(start, candidates.drop_last());
        if crate::validation::valid_part(candidates.last()) {
            let next = prev.push(crate::service::added(prev, candidates.last()));
            assert(next.drop_last() =~= prev);
        }
    }
}

/// Any run of adds, with no delete, from a collection with distinct
/// identifiers (an empty one, say) leaves the identifiers pairwise distinct.
pub proof fn lemma_adds_keep_ids_unique(start: Seq<Part>, candidates: Seq<Part>)
    requires
        unique_ids(start),
        crate::service::max_id(start) + candidates.len() < u32::MAX,
    ensures
        unique_ids(after_adds(start, candidates)),
    decreases candidates.len(),
{
    if candidates.len() > 0 {
        let prev = after_adds(start, candidates.drop_last());
        lemma_adds_keep_ids_unique(start, candidates.drop_last());
        lemma_after_adds_max_id(start, candidates.drop_last());
        if crate::validation::valid_part(candidates.last()) {
            lemma_add_keeps_ids_unique(prev, candidates.last());
        }
    }
}

/// Replacing a part under its own identifier keeps the identifiers pairwise
/// distinct.
pub proof fn lemma_update_keeps_ids_unique(before: Seq<Part>, id: u32, i: int, replacement: Part)
    requires
        unique_ids(before),
        crate::repository::first_match(before, id, i),
    ensures
        unique_ids(before.update(i, crate::model::with_id(replacement, id))),
{
    let after = before.update(i, crate::model::with_id(replacement, id));
    assert forall|a: int, b: int|
        0 <= a < after.len() && 0 <= b < after.len() && a != b implies (#[trigger] after[a]).id
        != (#[trigger] after[b]).id by {
        assert(after[a].id == before[a].id);
        assert(after[b].id == before[b].id);
    }
}

/// A price of zero or below (a set sign bit) is rejected once name and
/// category pass; a positive finite price passes, and with a proper brand
/// and condition the whole part does.
pub proof fn lemma_price_boundary(p: Part)
    requires
        !crate::validation::blank(p.name@),
        !crate::validation::blank(p.category@),
    ensures
        p.price_bits == 0 || p.price_bits >= 0x8000_0000_0000_0000 ==> crate::validation::first_violation(p)
            == Some(Violation::NonPositivePrice),
        0 < p.price_bits < crate::validation::POSITIVE_INFINITY_BITS && !crate::validation::blank(
            p.brand@,
        ) && crate::validation::allowed_condition(p.condition@) ==> crate::validation::valid_part(p),
{
}

/// Once the other fields pass, a condition other than exactly `Nuevo` or
/// `Usado` is rejected, and those two are accepted.
pub proof fn lemma_condition_boundary(p: Part)
    requires
        !crate::validation::blank(p.name@),
        !crate::validation::blank(p.category@),
        crate::validation::positive_price(p.price_bits),
        !crate::validation::blank(p.brand@),
    ensures
        p.condition@ != "Nuevo"@ && p.condition@ != "Usado"@ ==> crate::validation::first_violation(p)
            == Some(Violation::UnknownCondition),
        p.condition@ == "Nuevo"@ || p.condition@ == "Usado"@ ==> crate::validation::valid_part(p),
{
}

/// Keeping the parts whose identifier is not `id` changes nothing when no
/// part has it.
pub proof fn lemma_without_absent_id(parts: Seq<Part>, id: u32)
    requires
        forall|k: int| 0 <= k < parts.len() ==> (#[trigger] parts[k]).id != id,
    ensures
        crate::service::without_id(parts, id) == parts,
    decreases parts.len(),
{
    reveal(Seq::filter);
    if parts.len() > 0 {
        assert forall|k: int| 0 <= k < parts.drop_last().len() implies (#[trigger] parts.drop_last()[k]).id != id by {
            assert(parts.drop_last()[k] == parts[k]);
        }
        lemma_without_absent_id(parts.drop_last(), id);
        assert(parts.drop_last().push(parts.last()) =~= parts);
    }
}

/// With distinct identifiers, deleting the identifier of `parts[i]` removes
/// exactly that part and keeps the others, in order.
pub proof fn lemma_delete_removes_one(parts: Seq<Part>, i: int)
    requires
        unique_ids(parts),
        0 <= i < parts.len(),
    ensures
        crate::service::without_id(parts, parts[i].id) == parts.remove(i),
{
    let id = parts[i].id;
    let front = parts.subrange(0, i);
    let mid = seq![parts[i]];
    let back = parts.subrange(i + 1, parts.len() as int);
    assert(parts =~= front + mid + back);
    assert(parts.remove(i) =~= front + back);
    let pred = |p: Part| p.id != id;
    Seq::filter_distributes_over_add(front + mid, back, pred);
    Seq::filter_distributes_over_add(front, mid, pred);
    assert forall|k: int| 0 <= k < front.len() implies (#[trigger] front[k]).id != id by {
        assert(front[k] == parts[k]);
    }
    assert forall|k: int| 0 <= k < back.len() implies (#[trigger] back[k]).id != id by {
        assert(back[k] == parts[i + 1 + k]);
    }
    lemma_without_absent_id(front, id);
    lemma_without_absent_id(back, id);
    reveal(Seq::filter);
    assert(mid.drop_last() =~= Seq::<Part>::empty());
    assert(Seq::<Part>::empty().filter(pred) =~= Seq::<Part>::empty());
    assert(!pred(mid.last()));
    assert(mid.filter(pred) =~= Seq::<Part>::empty());
}

} // verus!
