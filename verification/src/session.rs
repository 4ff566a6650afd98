//! An arena together with its callers.
//!
//! The arena counts what it is told. This module adds the other side: the
//! reference handles that callers hold, and the calls that a caller who keeps
//! to the rules may make. It proves that for such callers the arena's counts
//! are the numbers of handles held, whatever the sequence of calls.

use crate::datum::{Datum, DatumId, DatumRef};
use crate::laws::{
    lemma_after_add_ref_wf, lemma_after_alloc_wf, lemma_after_drop_ref_wf, lemma_free_id,
    lemma_with_datum_wf,
};
use crate::model::ArenaState;
use vstd::prelude::*;

verus! {

/// One call that changes an arena.
pub enum ArenaOp {
    /// Store a value and take the handle.
    Alloc(Datum),
    /// Duplicate a held handle and report it.
    AddRef(DatumId),
    /// Discard a held handle and report it.
    DropRef(DatumId),
    /// Replace the value behind a handle.
    Write(DatumRef, Datum),
    /// Give up every handle and reset the arena.
    Reset,
}

/// An arena and the reference handles in its callers' hands.
pub struct Session {
    pub arena: ArenaState,
    /// How many reference handles are held, by identifier. An identifier
    /// that is no key has none.
    pub held: Map<DatumId, nat>,
}

impl Session {
    /// A new arena over the identifiers below `max_id`, and no handle held.
    pub open spec fn start(max_id: DatumId) -> Session {
        Session { arena: ArenaState::fresh(max_id), held: Map::empty() }
    }

    /// The number of reference handles held for `id`.
    pub open spec fn handles(self, id: DatumId) -> nat {
        if self.held.contains_key(id) {
            self.held[id]
        } else {
            0
        }
    }

    /// The count that the arena keeps for `id`: zero where no entry lives.
    pub open spec fn counted(self, id: DatumId) -> nat {
        if self.arena.contains(id) {
            self.arena.entries[id].ref_count as nat
        } else {
            0
        }
    }

    /// The arena is well-formed and counts, for every identifier, exactly the
    /// handles held.
    pub open spec fn consistent(self) -> bool {
        &&& self.arena.wf()
        &&& forall|id: DatumId| #[trigger] self.handles(id) == self.counted(id)
    }

    /// Whether a caller that keeps to the rules may make the call: it reports
    /// and dereferences only handles it holds, and duplicates a handle only
    /// while the count has room for one more.
    pub open spec fn permits(self, op: ArenaOp) -> bool {
        match op {
            ArenaOp::Alloc(_) => true,
            ArenaOp::AddRef(id) => 1 <= self.handles(id) < u32::MAX,
            ArenaOp::DropRef(id) => 1 <= self.handles(id),
            ArenaOp::Write(DatumRef::Void, _) => true,
            ArenaOp::Write(DatumRef::Ref(id), _) => 1 <= self.handles(id),
            ArenaOp::Reset => true,
        }
    }

    /// Whether the arena's own contract admits the call.
    pub open spec fn arena_admits(self, op: ArenaOp) -> bool {
        match op {
            ArenaOp::Alloc(_) => true,
            ArenaOp::AddRef(id) => self.arena.contains(id) && self.arena.entries[id].ref_count
                < u32::MAX,
            ArenaOp::DropRef(id) => self.arena.contains(id),
            ArenaOp::Write(handle, _) => self.arena.admits(handle),
            ArenaOp::Reset => true,
        }
    }

    /// The session after one call.
    pub open spec fn step(self, op: ArenaOp) -> Session {
        match op {
            ArenaOp::Alloc(datum) => Session {
                arena: self.arena.after_alloc(datum),
                held: match self.arena.alloc_handle(datum) {
                    Some(DatumRef::Ref(id)) => self.held.insert(id, self.handles(id) + 1),
                    _ => self.held,
                },
            },
            ArenaOp::AddRef(id) => Session {
                arena: self.arena.after_add_ref(id),
                held: self.held.insert(id, self.handles(id) + 1),
            },
            ArenaOp::DropRef(id) => Session {
                arena: self.arena.after_drop_ref(id),
                held: self.held.insert(id, (self.handles(id) - 1) as nat),
            },
            ArenaOp::Write(handle, datum) => Session {
                arena: self.arena.with_datum(handle, datum),
                ..self
            },
            ArenaOp::Reset => Session { arena: self.arena.after_reset(), held: Map::empty() },
        }
    }

    /// The session after the calls `ops`, made in order.
    pub open spec fn run(self, ops: Seq<ArenaOp>) -> Session
        decreases ops.len(),
    {
        if ops.len() == 0 {
            self
        } else {
            self.run(ops.drop_last()).step(ops.last())
        }
    }

    /// Whether each of the calls `ops`, made in order, is one that the rules
    /// permit at its turn.
    pub open spec fn permits_all(self, ops: Seq<ArenaOp>) -> bool
        decreases ops.len(),
    {
        ops.len() == 0 || (self.permits_all(ops.drop_last()) && self.run(ops.drop_last()).permits(
            ops.last(),
        ))
    }
}

/// A permitted call on a consistent session meets the arena's contract and
/// leaves the session consistent.
pub proof fn lemma_step_keeps_consistent(s: Session, op: ArenaOp)
    requires
        s.consistent(),
        s.permits(op),
    ensures
        s.arena_admits(op),
        s.step(op).consistent(),
{
    let t = s.step(op);
    match op {
        ArenaOp::Alloc(datum) => {
            lemma_free_id(s.arena);
            lemma_after_alloc_wf(s.arena, datum);
            assert forall|id: DatumId| #[trigger] t.handles(id) == t.counted(id) by {
                assert(s.handles(id) == s.counted(id));
            }
        },
        ArenaOp::AddRef(id) => {
            assert(s.handles(id) == s.counted(id));
            lemma_after_add_ref_wf(s.arena, id);
            assert forall|other: DatumId| #[trigger] t.handles(other) == t.counted(other) by {
                assert(s.handles(other) == s.counted(other));
            }
        },
        ArenaOp::DropRef(id) => {
            assert(s.handles(id) == s.counted(id));
            lemma_after_drop_ref_wf(s.arena, id);
            assert forall|other: DatumId| #[trigger] t.handles(other) == t.counted(other) by {
                assert(s.handles(other) == s.counted(other));
            }
        },
        ArenaOp::Write(handle, datum) => {
            if let DatumRef::Ref(id) = handle {
                assert(s.handles(id) == s.counted(id));
            }
            lemma_with_datum_wf(s.arena, handle, datum);
            assert forall|other: DatumId| #[trigger] t.handles(other) == t.counted(other) by {
                assert(s.handles(other) == s.counted(other));
            }
        },
        ArenaOp::Reset => {},
    }
}

/// Whatever sequence of permitted calls is made on a consistent session, the
/// session stays consistent: the arena is well-formed, every handle held
/// names a live entry, and every entry's count is the number of handles held
/// for it.
pub proof fn lemma_run_keeps_consistent(s: Session, ops: Seq<ArenaOp>)
    requires
        s.consistent(),
        s.permits_all(ops),
    ensures
        s.run(ops).consistent(),
    decreases ops.len(),
{
    if ops.len() > 0 {
        lemma_run_keeps_consistent(s, ops.drop_last());
        lemma_step_keeps_consistent(s.run(ops.drop_last()), ops.last());
    }
}

/// A new session is consistent.
pub proof fn lemma_start_is_consistent(max_id: DatumId)
    ensures
        Session::start(max_id).consistent(),
{
    let s = Session::start(max_id);
    assert forall|id: DatumId| #[trigger] s.handles(id) == s.counted(id) by {}
}

/// Whether every call of `ops` allocates or discards.
pub open spec fn allocs_and_drops(ops: Seq<ArenaOp>) -> bool {
    forall|i: int| 0 <= i < ops.len() ==> #[trigger] ops[i] is Alloc || ops[i] is DropRef
}

/// No two handles share an identifier while callers only allocate and
/// discard: at every point of every such sequence of permitted calls on a new
/// arena, at most one handle is held for any identifier.
pub proof fn lemma_handles_are_unique(max_id: DatumId, ops: Seq<ArenaOp>, point: int, id: DatumId)
    requires
        allocs_and_drops(ops),
        Session::start(max_id).permits_all(ops),
        0 <= point <= ops.len(),
    ensures
        Session::start(max_id).run(ops.take(point)).consistent(),
        Session::start(max_id).run(ops.take(point)).handles(id) <= 1,
    decreases ops.len(),
{
    let start = Session::start(max_id);
    lemma_start_is_consistent(max_id);
    if point < ops.len() {
        assert(ops.drop_last().take(point) =~= ops.take(point));
        lemma_handles_are_unique(max_id, ops.drop_last(), point, id);
    } else {
        assert(ops.take(point) =~= ops);
        if ops.len() > 0 {
            let before = start.run(ops.drop_last());
            let last = ops.len() - 1;
            assert(ops.drop_last().take(last) =~= ops.drop_last());
            lemma_handles_are_unique(max_id, ops.drop_last(), last, id);
            lemma_step_keeps_consistent(before, ops.last());
            assert(ops[last] is Alloc || ops[last] is DropRef);
            match ops.last() {
                ArenaOp::Alloc(datum) => {
                    lemma_free_id(before.arena);
                    if before.arena.alloc_handle(datum) == Some(DatumRef::Ref(id)) {
                        assert(before.handles(id) == before.counted(id));
                    }
                },
                _ => {},
            }
        }
    }
}

} // verus!
