//! Lookup of an entity by identifier in a roster kept as a vector.
//!
//! The physics layer reports collisions as pairs of entity identifiers, so
//! every system starts by resolving an identifier against the current
//! roster. A failed lookup silently skips the interaction.

use vstd::prelude::*;

verus! {

/// Index of the first occurrence of `id` in `ids`, or `-1` when absent.
pub open spec fn first_index_of(ids: Seq<u64>, id: u64) -> int
    decreases ids.len(),
{
    if ids.len() == 0 {
        -1
    } else if ids[0] == id {
        0
    } else {
        let r = first_index_of(ids.drop_first(), id);
        if r < 0 {
            -1
        } else {
            r + 1
        }
    }
}

/// The first occurrence is the index that has `id` while no earlier one does.
pub proof fn lemma_first_index_of_found(ids: Seq<u64>, id: u64, i: int)
    requires
        0 <= i < ids.len(),
        ids[i] == id,
        forall|j: int| 0 <= j < i ==> ids[j] != id,
    ensures
        first_index_of(ids, id) == i,
    decreases i,
{
    if i == 0 {
    } else {
        assert(ids.drop_first()[i - 1] == ids[i]);
        assert(forall|j: int| 0 <= j < i - 1 ==> ids.drop_first()[j] == ids[j + 1]);
        lemma_first_index_of_found(ids.drop_first(), id, i - 1);
    }
}

/// When no index has `id`, the lookup reports absence.
pub proof fn lemma_first_index_of_absent(ids: Seq<u64>, id: u64)
    requires
        forall|j: int| 0 <= j < ids.len() ==> ids[j] != id,
    ensures
        first_index_of(ids, id) == -1,
    decreases ids.len(),
{
    if ids.len() == 0 {
    } else {
        assert(forall|j: int| 0 <= j < ids.drop_first().len() ==> ids.drop_first()[j] == ids[j + 1]);
        lemma_first_index_of_absent(ids.drop_first(), id);
    }
}

/// A found index points at `id`, and nothing before it does.
pub proof fn lemma_first_index_of_props(ids: Seq<u64>, id: u64)
    ensures
        first_index_of(ids, id) >= 0 ==> {
            &&& first_index_of(ids, id) < ids.len()
            &&& ids[first_index_of(ids, id)] == id
            &&& forall|j: int| 0 <= j < first_index_of(ids, id) ==> ids[j] != id
        },
        first_index_of(ids, id) < 0 ==> forall|j: int| 0 <= j < ids.len() ==> ids[j] != id,
    decreases ids.len(),
{
    if ids.len() == 0 {
    } else if ids[0] == id {
    } else {
        lemma_first_index_of_props(ids.drop_first(), id);
        let r = first_index_of(ids.drop_first(), id);
        if r >= 0 {
            assert(ids[r + 1] == ids.drop_first()[r]);
            assert forall|j: int| 0 <= j < first_index_of(ids, id) implies ids[j] != id by {
                if j > 0 {
                    assert(ids[j] == ids.drop_first()[j - 1]);
                }
            }
        } else {
            assert forall|j: int| 0 <= j < ids.len() implies ids[j] != id by {
                if j > 0 {
                    assert(ids[j] == ids.drop_first()[j - 1]);
                }
            }
        }
    }
}

} // verus!
