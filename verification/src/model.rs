//! The mathematical model of the arena: its state, its well-formedness, and
//! what each operation does to it.

use crate::datum::{Datum, DatumId, DatumRef};
use vstd::prelude::*;

verus! {

/// What the arena keeps for one live value.
pub struct DatumRefEntry {
    /// The identifier under which the entry is stored.
    pub id: DatumId,
    /// The number of outstanding handles; at least one while the entry lives.
    pub ref_count: u32,
    /// The value itself.
    pub datum: Datum,
}

/// The state of an arena, as contracts see it.
pub struct ArenaState {
    /// The live entries, by identifier.
    pub entries: Map<DatumId, DatumRefEntry>,
    /// The counter: the next candidate identifier.
    pub next_id: DatumId,
    /// The top of the identifier space: identifiers are drawn from
    /// `0 .. max_id`, and `max_id` itself is never assigned.
    pub max_id: DatumId,
    /// The slot that every empty handle dereferences to.
    pub void_datum: Datum,
}

impl ArenaState {
    /// The arena as it is constructed: no entries, the counter at zero, the
    /// empty slot holding the empty value.
    pub open spec fn fresh(max_id: DatumId) -> ArenaState {
        ArenaState { entries: Map::empty(), next_id: 0, max_id, void_datum: Datum::Void }
    }

    /// Whether `id` names a live entry.
    pub open spec fn contains(self, id: DatumId) -> bool {
        self.entries.contains_key(id)
    }

    /// Well-formedness: every live identifier lies inside the space and not
    /// above the counter, every entry is stored under its own identifier, and
    /// every live count is at least one.
    pub open spec fn wf(self) -> bool {
        &&& self.entries.dom().finite()
        &&& self.next_id <= self.max_id
        &&& forall|id: DatumId| #[trigger]
            self.contains(id) ==> {
                &&& id < self.max_id
                &&& id <= self.next_id
                &&& self.entries[id].id == id
                &&& self.entries[id].ref_count >= 1
            }
    }

    /// The number of live entries.
    pub open spec fn occupancy(self) -> nat {
        self.entries.len()
    }

    /// Whether a handle may be dereferenced: the empty handle always, a
    /// reference while its entry lives.
    pub open spec fn admits(self, handle: DatumRef) -> bool {
        match handle {
            DatumRef::Void => true,
            DatumRef::Ref(id) => self.contains(id),
        }
    }

    /// The value behind a handle.
    pub open spec fn datum(self, handle: DatumRef) -> Datum
        recommends
            self.admits(handle),
    {
        match handle {
            DatumRef::Void => self.void_datum,
            DatumRef::Ref(id) => self.entries[id].datum,
        }
    }

    /// The state after the value behind a handle was replaced by `datum`:
    /// nothing else changes, neither the entry's count nor its identifier.
    pub open spec fn with_datum(self, handle: DatumRef, datum: Datum) -> ArenaState
        recommends
            self.admits(handle),
    {
        match handle {
            DatumRef::Void => ArenaState { void_datum: datum, ..self },
            DatumRef::Ref(id) => ArenaState {
                entries: self.entries.insert(id, DatumRefEntry { datum, ..self.entries[id] }),
                ..self
            },
        }
    }

    /// Whether `id` lies inside the space and names no live entry.
    pub open spec fn is_free(self, id: DatumId) -> bool {
        id < self.max_id && !self.contains(id)
    }

    /// Whether every identifier of the space is live.
    pub open spec fn is_full(self) -> bool {
        forall|id: DatumId| id < self.max_id ==> #[trigger] self.contains(id)
    }

    /// Whether `id` is free and every identifier below it is live.
    pub open spec fn is_lowest_free(self, id: DatumId) -> bool {
        &&& self.is_free(id)
        &&& forall|below: DatumId| below < id ==> #[trigger] self.contains(below)
    }

    /// The lowest free identifier of the space, if there is a free one.
    pub open spec fn lowest_free(self) -> Option<DatumId> {
        if self.is_full() {
            None
        } else {
            Some(choose|id: DatumId| self.is_lowest_free(id))
        }
    }

    /// Whether the next allocation of a non-empty value has to search the
    /// space from its low end: the counter stands at the top of the space, or
    /// on the last identifier while that one is live.
    pub open spec fn at_ceiling(self) -> bool {
        &&& !(self.next_id < self.max_id && !self.contains(self.next_id))
        &&& !(self.next_id + 1 < self.max_id)
    }

    /// The identifier that the next allocation of a non-empty value takes.
    ///
    /// The counter itself where that is inside the space and not live; else
    /// the identifier after the counter where that is inside the space; else
    /// the lowest free identifier of the whole space.
    pub open spec fn free_id(self) -> Option<DatumId> {
        if self.next_id < self.max_id && !self.contains(self.next_id) {
            Some(self.next_id)
        } else if self.next_id + 1 < self.max_id {
            Some((self.next_id + 1) as DatumId)
        } else {
            self.lowest_free()
        }
    }

    /// The counter after a successful allocation: one further, but never
    /// beyond the top of the space.
    pub open spec fn advanced_id(self) -> DatumId {
        if self.next_id < self.max_id {
            (self.next_id + 1) as DatumId
        } else {
            self.next_id
        }
    }

    /// The handle that allocating `datum` returns, or `None` where the
    /// allocation fails.
    pub open spec fn alloc_handle(self, datum: Datum) -> Option<DatumRef> {
        if datum is Void {
            Some(DatumRef::Void)
        } else {
            match self.free_id() {
                Some(id) => Some(DatumRef::Ref(id)),
                None => None,
            }
        }
    }

    /// The state after allocating `datum`. The empty value and a failed
    /// allocation leave the state as it was.
    pub open spec fn after_alloc(self, datum: Datum) -> ArenaState {
        if datum is Void {
            self
        } else {
            match self.free_id() {
                Some(id) => ArenaState {
                    entries: self.entries.insert(id, DatumRefEntry { id, ref_count: 1, datum }),
                    next_id: self.advanced_id(),
                    ..self
                },
                None => self,
            }
        }
    }

    /// The state after one more handle to `id` was reported.
    pub open spec fn after_add_ref(self, id: DatumId) -> ArenaState
        recommends
            self.contains(id),
            self.entries[id].ref_count < u32::MAX,
    {
        let entry = self.entries[id];
        ArenaState {
            entries: self.entries.insert(
                id,
                DatumRefEntry { ref_count: (entry.ref_count + 1) as u32, ..entry },
            ),
            ..self
        }
    }

    /// The state after one handle to `id` was discarded: the entry is gone
    /// where that was its last handle, else its count is one less.
    pub open spec fn after_drop_ref(self, id: DatumId) -> ArenaState
        recommends
            self.contains(id),
            self.entries[id].ref_count >= 1,
    {
        let entry = self.entries[id];
        if entry.ref_count == 1 {
            ArenaState { entries: self.entries.remove(id), ..self }
        } else {
            ArenaState {
                entries: self.entries.insert(
                    id,
                    DatumRefEntry { ref_count: (entry.ref_count - 1) as u32, ..entry },
                ),
                ..self
            }
        }
    }

    /// The state after a reset: no entries, the counter back at zero.
    pub open spec fn after_reset(self) -> ArenaState {
        ArenaState { entries: Map::empty(), next_id: 0, ..self }
    }
}

} // verus!
