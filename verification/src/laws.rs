//! What holds of the arena model in every well-formed state.

use crate::datum::{Datum, DatumId, DatumRef};
use crate::model::{ArenaState, DatumRefEntry};
use vstd::prelude::*;

verus! {

/// At most one identifier is the lowest free one.
pub proof fn lemma_lowest_free_unique(s: ArenaState, a: DatumId, b: DatumId)
    requires
        s.is_lowest_free(a),
        s.is_lowest_free(b),
    ensures
        a == b,
{
    if a < b {
        assert(s.contains(a));
    } else if b < a {
        assert(s.contains(b));
    }
}

/// Below or at any free identifier stands a lowest free one.
pub proof fn lemma_lowest_free_exists(s: ArenaState, k: DatumId)
    requires
        s.is_free(k),
    ensures
        exists|id: DatumId| s.is_lowest_free(id) && id <= k,
    decreases k,
{
    if s.is_lowest_free(k) {
    } else {
        let below = choose|below: DatumId| below < k && !s.contains(below);
        lemma_lowest_free_exists(s, below);
        let id = choose|id: DatumId| s.is_lowest_free(id) && id <= below;
        assert(s.is_lowest_free(id) && id <= k);
    }
}

/// `lowest_free` names the lowest free identifier where one is free, and is
/// `None` exactly where the space is full.
pub proof fn lemma_lowest_free(s: ArenaState)
    ensures
        match s.lowest_free() {
            Some(id) => s.is_lowest_free(id),
            None => s.is_full(),
        },
{
    if !s.is_full() {
        let k = choose|k: DatumId| k < s.max_id && !s.contains(k);
        lemma_lowest_free_exists(s, k);
    }
}

/// An identifier that is free with every lower one live is what `lowest_free`
/// names.
pub proof fn lemma_lowest_free_is(s: ArenaState, id: DatumId)
    requires
        s.is_lowest_free(id),
    ensures
        s.lowest_free() == Some(id),
{
    assert(!s.is_full()) by {
        if s.is_full() {
            assert(s.contains(id));
        }
    }
    lemma_lowest_free(s);
    lemma_lowest_free_unique(s, id, s.lowest_free().unwrap());
}

/// In a well-formed state the identifier that `free_id` names is free, and it
/// names none exactly where the space is full.
pub proof fn lemma_free_id(s: ArenaState)
    requires
        s.wf(),
    ensures
        match s.free_id() {
            Some(id) => s.is_free(id),
            None => s.is_full(),
        },
        s.free_id() is None <==> s.is_full(),
{
    lemma_lowest_free(s);
    if s.next_id < s.max_id && !s.contains(s.next_id) {
        assert(!s.is_full());
    } else if s.next_id + 1 < s.max_id {
        let id = (s.next_id + 1) as DatumId;
        assert(!s.contains(id));
        assert(!s.is_full());
    } else {
        if s.lowest_free() is Some {
            assert(!s.contains(s.lowest_free().unwrap()));
        }
    }
}

/// Allocation keeps a well-formed state well-formed.
pub proof fn lemma_after_alloc_wf(s: ArenaState, datum: Datum)
    requires
        s.wf(),
    ensures
        s.after_alloc(datum).wf(),
{
    lemma_free_id(s);
    let t = s.after_alloc(datum);
    if !(datum is Void) && s.free_id() is Some {
        let new_id = s.free_id().unwrap();
        assert forall|id: DatumId| #[trigger] t.contains(id) implies {
            &&& id < t.max_id
            &&& id <= t.next_id
            &&& t.entries[id].id == id
            &&& t.entries[id].ref_count >= 1
        } by {
            if id != new_id {
                assert(s.contains(id));
            }
        }
    }
}

/// Replacing the value behind a handle keeps a well-formed state well-formed.
pub proof fn lemma_with_datum_wf(s: ArenaState, handle: DatumRef, datum: Datum)
    requires
        s.wf(),
        s.admits(handle),
    ensures
        s.with_datum(handle, datum).wf(),
{
    let t = s.with_datum(handle, datum);
    assert forall|id: DatumId| #[trigger] t.contains(id) implies {
        &&& id < t.max_id
        &&& id <= t.next_id
        &&& t.entries[id].id == id
        &&& t.entries[id].ref_count >= 1
    } by {
        assert(s.contains(id));
    }
}

/// Reporting one more handle keeps a well-formed state well-formed.
pub proof fn lemma_after_add_ref_wf(s: ArenaState, id: DatumId)
    requires
        s.wf(),
        s.contains(id),
        s.entries[id].ref_count < u32::MAX,
    ensures
        s.after_add_ref(id).wf(),
{
    let t = s.after_add_ref(id);
    assert forall|other: DatumId| #[trigger] t.contains(other) implies {
        &&& other < t.max_id
        &&& other <= t.next_id
        &&& t.entries[other].id == other
        &&& t.entries[other].ref_count >= 1
    } by {
        assert(s.contains(other));
    }
}

/// Discarding one handle keeps a well-formed state well-formed.
pub proof fn lemma_after_drop_ref_wf(s: ArenaState, id: DatumId)
    requires
        s.wf(),
        s.contains(id),
    ensures
        s.after_drop_ref(id).wf(),
{
    let t = s.after_drop_ref(id);
    assert forall|other: DatumId| #[trigger] t.contains(other) implies {
        &&& other < t.max_id
        &&& other <= t.next_id
        &&& t.entries[other].id == other
        &&& t.entries[other].ref_count >= 1
    } by {
        assert(s.contains(other));
    }
}

/// Resetting any state, well-formed or not, gives a well-formed one.
pub proof fn lemma_after_reset_wf(s: ArenaState)
    ensures
        s.after_reset().wf(),
{
}

/// A new entry never takes the place of a live one.
///
/// Where a non-empty value is allocated in a state that is not full, the
/// handle is a reference whose identifier was free; the arena gains exactly
/// the entry for it, with count one and the value given; and every entry that
/// lived before is still there, unchanged.
pub proof fn lemma_alloc_takes_free_id(s: ArenaState, datum: Datum)
    requires
        s.wf(),
        !(datum is Void),
        !s.is_full(),
    ensures
        s.free_id() is Some,
        s.alloc_handle(datum) == Some(DatumRef::Ref(s.free_id().unwrap())),
        s.is_free(s.free_id().unwrap()),
        s.after_alloc(datum).entries == s.entries.insert(
            s.free_id().unwrap(),
            DatumRefEntry { id: s.free_id().unwrap(), ref_count: 1, datum },
        ),
        forall|other: DatumId| #[trigger]
            s.contains(other) ==> other != s.free_id().unwrap() && s.after_alloc(datum).contains(
                other,
            ) && s.after_alloc(datum).entries[other] == s.entries[other],
        s.after_alloc(datum).occupancy() == s.occupancy() + 1,
{
    lemma_free_id(s);
}

/// Allocating the empty value gives the shared empty handle and leaves the
/// arena as it was: no entry, no identifier used, the same occupancy.
pub proof fn lemma_alloc_void(s: ArenaState, datum: Datum)
    requires
        datum is Void,
    ensures
        s.alloc_handle(datum) == Some(DatumRef::Void),
        s.after_alloc(datum) == s,
{
}

/// A full arena refuses every non-empty value and stays as it was; an arena
/// that is not full refuses none.
pub proof fn lemma_alloc_fails_iff_full(s: ArenaState, datum: Datum)
    requires
        s.wf(),
        !(datum is Void),
    ensures
        s.alloc_handle(datum) is None <==> s.is_full(),
        s.is_full() ==> s.after_alloc(datum) == s,
{
    lemma_free_id(s);
}

/// One more handle, then one handle fewer, is no change at all.
pub proof fn lemma_add_ref_then_drop_ref(s: ArenaState, id: DatumId)
    requires
        s.wf(),
        s.contains(id),
        s.entries[id].ref_count < u32::MAX,
    ensures
        s.after_add_ref(id).after_drop_ref(id) == s,
{
    let t = s.after_add_ref(id).after_drop_ref(id);
    assert(t.entries =~= s.entries);
}

/// Reporting a handle raises the count of its entry by one and touches
/// nothing else.
pub proof fn lemma_add_ref_counts(s: ArenaState, id: DatumId)
    requires
        s.wf(),
        s.contains(id),
        s.entries[id].ref_count < u32::MAX,
    ensures
        s.after_add_ref(id).contains(id),
        s.after_add_ref(id).entries[id].ref_count == s.entries[id].ref_count + 1,
        s.after_add_ref(id).entries[id].datum == s.entries[id].datum,
        s.after_add_ref(id).occupancy() == s.occupancy(),
        forall|other: DatumId|
            other != id ==> (#[trigger] s.after_add_ref(id).contains(other) <==> s.contains(other))
                && s.after_add_ref(id).entries[other] == s.entries[other],
{
    assert(s.after_add_ref(id).entries.dom() =~= s.entries.dom());
}

/// Discarding a handle lowers the count of its entry by one. The entry is
/// gone exactly when that count was one; no other entry is touched.
pub proof fn lemma_drop_ref_counts(s: ArenaState, id: DatumId)
    requires
        s.wf(),
        s.contains(id),
    ensures
        s.entries[id].ref_count == 1 ==> !s.after_drop_ref(id).contains(id)
            && s.after_drop_ref(id).occupancy() == s.occupancy() - 1,
        s.entries[id].ref_count > 1 ==> s.after_drop_ref(id).contains(id)
            && s.after_drop_ref(id).entries[id].ref_count == s.entries[id].ref_count - 1
            && s.after_drop_ref(id).entries[id].datum == s.entries[id].datum
            && s.after_drop_ref(id).occupancy() == s.occupancy(),
        forall|other: DatumId|
            other != id ==> (#[trigger] s.after_drop_ref(id).contains(other) <==> s.contains(other))
                && s.after_drop_ref(id).entries[other] == s.entries[other],
{
    if s.entries[id].ref_count > 1 {
        assert(s.after_drop_ref(id).entries.dom() =~= s.entries.dom());
    }
}

/// The state after `n` handles to `id` were discarded, one after the other.
pub open spec fn after_drops(s: ArenaState, id: DatumId, n: nat) -> ArenaState
    decreases n,
{
    if n == 0 {
        s
    } else {
        after_drops(s, id, (n - 1) as nat).after_drop_ref(id)
    }
}

/// An entry lives as long as handles to it are outstanding, and no longer:
/// after fewer drops than its count it is still there, with the value it had
/// and the count that is left; after as many drops as its count it is gone.
pub proof fn lemma_entry_lives_until_last_drop(s: ArenaState, id: DatumId, n: nat)
    requires
        s.wf(),
        s.contains(id),
        n <= s.entries[id].ref_count,
    ensures
        after_drops(s, id, n).wf(),
        n < s.entries[id].ref_count ==> after_drops(s, id, n).contains(id) && after_drops(
            s,
            id,
            n,
        ).entries[id].ref_count == s.entries[id].ref_count - n && after_drops(
            s,
            id,
            n,
        ).entries[id].datum == s.entries[id].datum,
        n == s.entries[id].ref_count ==> !after_drops(s, id, n).contains(id),
    decreases n,
{
    if n > 0 {
        let before = after_drops(s, id, (n - 1) as nat);
        lemma_entry_lives_until_last_drop(s, id, (n - 1) as nat);
        lemma_after_drop_ref_wf(before, id);
        lemma_drop_ref_counts(before, id);
    }
}

/// The identifier of a destroyed entry can be taken again, and the entry that
/// then lives under it owes nothing to the one that died.
///
/// Where the last handle to `id` is discarded while the counter stands on
/// `id`, or while the counter stands at the top of the space and every lower
/// identifier is live, the next non-empty value is stored under `id`, with
/// count one.
pub proof fn lemma_released_id_is_taken_again(s: ArenaState, id: DatumId, datum: Datum)
    requires
        s.wf(),
        s.contains(id),
        s.entries[id].ref_count == 1,
        !(datum is Void),
        s.next_id == id || (s.next_id == s.max_id && forall|below: DatumId|
            below < id ==> #[trigger] s.contains(below)),
    ensures
        !s.after_drop_ref(id).contains(id),
        s.after_drop_ref(id).alloc_handle(datum) == Some(DatumRef::Ref(id)),
        s.after_drop_ref(id).after_alloc(datum).entries[id] == (DatumRefEntry {
            id,
            ref_count: 1,
            datum,
        }),
{
    let t = s.after_drop_ref(id);
    if s.next_id != id {
        assert(t.is_lowest_free(id)) by {
            assert forall|below: DatumId| below < id implies #[trigger] t.contains(below) by {
                assert(s.contains(below));
            }
        }
        lemma_lowest_free_is(t, id);
    }
}

/// After a reset the arena is empty and allocates as a new arena over the
/// same space does: the same handle for every value, and the same entries
/// and counter afterwards.
pub proof fn lemma_reset_is_fresh(s: ArenaState, datum: Datum)
    ensures
        s.after_reset().occupancy() == 0,
        s.after_reset() == (ArenaState { void_datum: s.void_datum, ..ArenaState::fresh(s.max_id) }),
        s.after_reset().alloc_handle(datum) == ArenaState::fresh(s.max_id).alloc_handle(datum),
        s.after_reset().after_alloc(datum) == (ArenaState {
            void_datum: s.void_datum,
            ..ArenaState::fresh(s.max_id).after_alloc(datum)
        }),
{
    let r = s.after_reset();
    let f = ArenaState::fresh(s.max_id);
    assert(r.is_full() == f.is_full());
    lemma_lowest_free(r);
    lemma_lowest_free(f);
    if !r.is_full() {
        let in_fresh = f.lowest_free().unwrap();
        assert(r.is_lowest_free(in_fresh));
        lemma_lowest_free_unique(r, r.lowest_free().unwrap(), in_fresh);
    }
}

} // verus!
