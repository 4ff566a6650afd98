//! The arena itself.

use crate::datum::{Datum, DatumId, DatumRef, ScriptError, VOID_DATUM_REF};
use crate::laws::{
    lemma_after_add_ref_wf, lemma_after_alloc_wf, lemma_after_drop_ref_wf, lemma_free_id,
    lemma_lowest_free_is, lemma_with_datum_wf,
};
use crate::model::{ArenaState, DatumRefEntry};
use crate::table::{
    table_contains_key, table_get, table_get_mut, table_insert, table_len, table_remove,
    DatumTable,
};
use nohash_hasher::IntMap;
use vstd::prelude::*;

verus! {

/// The top of the identifier space of an arena made by
/// [`DatumAllocator::default`].
pub const MAX_DATUM_ID: DatumId = u32::MAX;

/// What an arena offers to the interpreter that stores its values in it.
///
/// Every operation is one step on the arena's state, [`ArenaState`], and its
/// contract says which.
pub trait DatumAllocatorTrait {
    /// The state of the arena.
    spec fn arena(&self) -> ArenaState;

    /// Stores `datum` and returns a handle to it.
    ///
    /// The empty value is never stored: its handle is the shared empty handle,
    /// and the arena stays as it was. Any other value gets an entry of its own
    /// with count one, under an identifier that named no live entry before.
    /// The allocation fails when, and only when, every identifier of the space
    /// is live; the arena then stays as it was.
    fn alloc_datum(&mut self, datum: Datum) -> (result: Result<DatumRef, ScriptError>)
        requires
            old(self).arena().wf(),
        ensures
            final(self).arena().wf(),
            final(self).arena() == old(self).arena().after_alloc(datum),
            match result {
                Ok(handle) => old(self).arena().alloc_handle(datum) == Some(handle),
                Err(error) => old(self).arena().alloc_handle(datum) is None
                    && error.message@ == "Failed to allocate datum"@,
            },
            datum is Void ==> result == Ok::<DatumRef, ScriptError>(VOID_DATUM_REF),
            datum is Void ==> final(self).arena() == old(self).arena(),
            result is Err <==> !(datum is Void) && old(self).arena().is_full(),
            result is Err ==> final(self).arena() == old(self).arena(),
            result matches Ok(DatumRef::Ref(id)) ==> {
                &&& old(self).arena().is_free(id)
                &&& final(self).arena().entries == old(self).arena().entries.insert(
                    id,
                    (DatumRefEntry { id, ref_count: 1, datum }),
                )
            },
    ;

    /// Shared access to the value behind a handle: the empty slot for the
    /// empty handle, else the value of the entry that the handle names.
    fn get_datum(&self, id: &DatumRef) -> (datum: &Datum)
        requires
            self.arena().admits(*id),
        ensures
            *datum == self.arena().datum(*id),
    ;

    /// Exclusive access to the value behind a handle. What the caller leaves
    /// there is the value behind the handle from then on; nothing else in the
    /// arena changes.
    fn get_datum_mut(&mut self, id: &DatumRef) -> (datum: &mut Datum)
        requires
            old(self).arena().wf(),
            old(self).arena().admits(*id),
        ensures
            *datum == old(self).arena().datum(*id),
            final(self).arena() == old(self).arena().with_datum(*id, *final(datum)),
            final(self).arena().wf(),
    ;

    /// Records one more handle to the entry `id`.
    fn on_datum_ref_added(&mut self, id: DatumId)
        requires
            old(self).arena().wf(),
            old(self).arena().contains(id),
            old(self).arena().entries[id].ref_count < u32::MAX,
        ensures
            final(self).arena().wf(),
            final(self).arena() == old(self).arena().after_add_ref(id),
    ;

    /// Records that one handle to the entry `id` was discarded. The entry is
    /// destroyed when that was its last handle, and not before.
    fn on_datum_ref_dropped(&mut self, id: DatumId)
        requires
            old(self).arena().wf(),
            old(self).arena().contains(id),
        ensures
            final(self).arena().wf(),
            final(self).arena() == old(self).arena().after_drop_ref(id),
    ;

    /// Destroys every entry and puts the counter back to zero.
    fn reset(&mut self)
        ensures
            final(self).arena().wf(),
            final(self).arena() == old(self).arena().after_reset(),
    ;
}

/// The arena: a table of reference-counted entries, the counter that proposes
/// the next identifier, and the slot behind the empty handle.
pub struct DatumAllocator {
    datums: DatumTable,
    datum_id_counter: DatumId,
    max_datum_id: DatumId,
    void_datum: Datum,
}

impl DatumAllocator {
    /// An empty arena over the identifiers below [`MAX_DATUM_ID`].
    pub fn default() -> (allocator: Self)
        ensures
            allocator.arena() == ArenaState::fresh(MAX_DATUM_ID),
            allocator.arena().wf(),
    {
        Self::with_max_id(MAX_DATUM_ID)
    }

    /// An empty arena over the identifiers below `max_id`.
    pub fn with_max_id(max_id: DatumId) -> (allocator: Self)
        ensures
            allocator.arena() == ArenaState::fresh(max_id),
            allocator.arena().wf(),
    {
        DatumAllocator {
            datums: IntMap::default(),
            datum_id_counter: 0,
            max_datum_id: max_id,
            void_datum: Datum::Void,
        }
    }

    /// The number of live entries.
    pub fn len(&self) -> (n: usize)
        ensures
            n == self.arena().occupancy(),
    {
        table_len(&self.datums)
    }

    /// Whether `id` names a live entry.
    pub fn contains(&self, id: DatumId) -> (live: bool)
        ensures
            live == self.arena().contains(id),
    {
        table_contains_key(&self.datums, id)
    }

    /// The count of the entry `id`, or `None` where no such entry lives.
    pub fn ref_count(&self, id: DatumId) -> (count: Option<u32>)
        ensures
            count == (if self.arena().contains(id) {
                Some(self.arena().entries[id].ref_count)
            } else {
                None
            }),
    {
        match table_get(&self.datums, id) {
            Some(entry) => Some(entry.ref_count),
            None => None,
        }
    }

    /// The counter: the identifier that the arena proposes next.
    pub fn next_id(&self) -> (id: DatumId)
        ensures
            id == self.arena().next_id,
    {
        self.datum_id_counter
    }

    /// The top of the identifier space.
    pub fn max_id(&self) -> (id: DatumId)
        ensures
            id == self.arena().max_id,
    {
        self.max_datum_id
    }

    /// Whether the next allocation of a non-empty value has to search the
    /// whole space for a free identifier. That search is the one slow path of
    /// the arena; a caller that keeps a log may want to note it.
    pub fn at_ceiling(&self) -> (searching: bool)
        ensures
            searching == self.arena().at_ceiling(),
    {
        if self.datum_id_counter < self.max_datum_id {
            table_contains_key(&self.datums, self.datum_id_counter) && self.datum_id_counter
                == self.max_datum_id - 1
        } else {
            true
        }
    }

    /// The lowest free identifier of the space, found by trying each in turn.
    fn first_free_id(&self) -> (found: Option<DatumId>)
        ensures
            found == self.arena().lowest_free(),
    {
        let mut id: DatumId = 0;
        while id < self.max_datum_id
            invariant
                id <= self.max_datum_id,
                forall|below: DatumId| below < id ==> #[trigger] self.arena().contains(below),
            decreases self.max_datum_id - id,
        {
            if !table_contains_key(&self.datums, id) {
                proof {
                    lemma_lowest_free_is(self.arena(), id);
                }
                return Some(id);
            }
            id += 1;
        }
        assert(self.arena().is_full());
        None
    }

    /// The identifier for the next entry, or `None` where the space is full.
    fn get_free_id(&self) -> (found: Option<DatumId>)
        ensures
            found == self.arena().free_id(),
    {
        if self.datum_id_counter < self.max_datum_id && !table_contains_key(
            &self.datums,
            self.datum_id_counter,
        ) {
            Some(self.datum_id_counter)
        } else if self.datum_id_counter < self.max_datum_id && self.datum_id_counter + 1
            < self.max_datum_id {
            Some(self.datum_id_counter + 1)
        } else {
            self.first_free_id()
        }
    }

    fn dealloc_datum(&mut self, id: DatumId)
        ensures
            final(self).arena() == (ArenaState {
                entries: old(self).arena().entries.remove(id),
                ..old(self).arena()
            }),
    {
        table_remove(&mut self.datums, id);
    }
}

impl DatumAllocatorTrait for DatumAllocator {
    closed spec fn arena(&self) -> ArenaState {
        ArenaState {
            entries: self.datums@,
            next_id: self.datum_id_counter,
            max_id: self.max_datum_id,
            void_datum: self.void_datum,
        }
    }

    fn alloc_datum(&mut self, datum: Datum) -> (result: Result<DatumRef, ScriptError>) {
        if datum.is_void() {
            return Ok(VOID_DATUM_REF);
        }
        proof {
            lemma_free_id(self.arena());
            lemma_after_alloc_wf(self.arena(), datum);
        }
        if let Some(id) = self.get_free_id() {
            let entry = DatumRefEntry { id, ref_count: 1, datum };
            if self.datum_id_counter < self.max_datum_id {
                self.datum_id_counter += 1;
            }
            table_insert(&mut self.datums, id, entry);
            Ok(DatumRef::from_id(id))
        } else {
            Err(ScriptError::new("Failed to allocate datum".to_string()))
        }
    }

    fn get_datum(&self, id: &DatumRef) -> (datum: &Datum) {
        match id {
            DatumRef::Ref(id) => {
                let entry = table_get(&self.datums, *id).unwrap();
                &entry.datum
            },
            DatumRef::Void => &self.void_datum,
        }
    }

    fn get_datum_mut(&mut self, id: &DatumRef) -> (datum: &mut Datum) {
        proof {
            assert forall|datum: Datum| #[trigger] self.arena().with_datum(*id, datum).wf() by {
                lemma_with_datum_wf(self.arena(), *id, datum);
            }
        }
        match id {
            DatumRef::Ref(id) => {
                let entry = table_get_mut(&mut self.datums, *id).unwrap();
                &mut entry.datum
            },
            DatumRef::Void => &mut self.void_datum,
        }
    }

    fn on_datum_ref_added(&mut self, id: DatumId) {
        proof {
            lemma_after_add_ref_wf(self.arena(), id);
        }
        let entry = table_get_mut(&mut self.datums, id).unwrap();
        entry.ref_count += 1;
    }

    fn on_datum_ref_dropped(&mut self, id: DatumId) {
        proof {
            lemma_after_drop_ref_wf(self.arena(), id);
        }
        let entry = table_get_mut(&mut self.datums, id).unwrap();
        entry.ref_count -= 1;
        if entry.ref_count == 0 {
            self.dealloc_datum(id);
            assert(self.arena().entries =~= old(self).arena().entries.remove(id));
        }
    }

    fn reset(&mut self) {
        self.datums.clear();
        self.datum_id_counter = 0;
    }
}

} // verus!
