//! The shared-state access layer: an index guarded by one reader/writer
//! lock, each record guarded by a reader/writer lock of its own.
//!
//! Lock order: the index lock is always taken first and released last; a
//! record lock is only ever taken while the index lock is held for read, so
//! no task waits for the index while holding a record. The index is held
//! for write only while an identifier is assigned.
use std::collections::BTreeMap;
use std::sync::Arc;
use vstd::prelude::*;
use vstd::rwlock::{RwLock, RwLockPredicate};

use crate::data::{Status, Ticket, TicketDraft, TicketId, TicketPatch};

verus! {

broadcast use vstd::std_specs::btree::group_btree_axioms, vstd::laws_cmp::group_laws_cmp;

/// What the lock of the record stored under `id` guarantees of its content.
pub struct RecordLockInv {
    pub id: u64,
}

impl RwLockPredicate<Ticket> for RecordLockInv {
    /// The record keeps the identifier it is stored under.
    open spec fn inv(self, t: Ticket) -> bool {
        t.id.0 == self.id
    }
}

/// A record behind its own lock.
pub type RecordCell = Arc<RwLock<Ticket, RecordLockInv>>;

/// The index: identifier to record cell, and the counter.
pub struct SharedIndex {
    cells: BTreeMap<u64, RecordCell>,
    counter: u64,
}

impl SharedIndex {
    /// Identifiers in use are those below the counter, and each cell's lock
    /// holds the identifier it is stored under.
    pub closed spec fn wf(&self) -> bool {
        &&& forall|k: u64| #[trigger] self.cells@.contains_key(k) <==> k < self.counter
        &&& forall|k: u64| #[trigger]
            self.cells@.contains_key(k) ==> self.cells@[k].pred() == (RecordLockInv { id: k })
    }

    /// The identifier that the next create assigns.
    pub closed spec fn next_id(&self) -> nat {
        self.counter as nat
    }

    /// The identifiers in use.
    pub closed spec fn ids(&self) -> Set<u64> {
        self.cells@.dom()
    }

    /// Whether `id` has a cell, and if so, that the cell's lock is the one
    /// for `id`.
    pub closed spec fn holds_cell(&self, id: u64, cell: RecordCell) -> bool {
        self.cells@.contains_key(id) && self.cells@[id] == cell
    }

    /// `after` is `before` with a record added under the fresh identifier `id`.
    pub open spec fn assigned(before: SharedIndex, after: SharedIndex, id: TicketId) -> bool {
        &&& id.0 == before.next_id()
        &&& after.next_id() == before.next_id() + 1
        &&& after.ids() == before.ids().insert(id.0)
    }

    /// An empty index whose first identifier is 0.
    pub fn new() -> (r: Self)
        ensures
            r.wf(),
            r.next_id() == 0,
            r.ids() == Set::<u64>::empty(),
    {
        let r = SharedIndex { cells: BTreeMap::new(), counter: 0 };
        assert(r.cells@.dom() =~= Set::<u64>::empty());
        r
    }

    /// Stores the draft as a new record with status `ToDo`, behind a lock of
    /// its own, under the next identifier, and advances the counter; `None`,
    /// with nothing changed, when no identifier is left.
    pub fn assign(&mut self, draft: TicketDraft) -> (r: Option<TicketId>)
        requires
            old(self).wf(),
        ensures
            final(self).wf(),
            r is None <==> old(self).next_id() == u64::MAX,
            r matches Some(id) ==> SharedIndex::assigned(*old(self), *final(self), id),
            r is None ==> final(self).next_id() == old(self).next_id() && final(self).ids() == old(self).ids(),
    {
        if self.counter == u64::MAX {
            return None;
        }
        let id = TicketId(self.counter);
        let ticket = Ticket {
            id,
            title: draft.title,
            description: draft.description,
            status: Status::ToDo,
        };
        let cell = Arc::new(RwLock::new(ticket, Ghost(RecordLockInv { id: id.0 })));
        self.cells.insert(id.0, cell);
        self.counter = self.counter + 1;
        Some(id)
    }

    /// The cell of the record stored under `id`, if there is one; its lock
    /// guarantees that the record keeps `id`.
    pub fn cell_of(&self, id: TicketId) -> (r: Option<RecordCell>)
        requires
            self.wf(),
        ensures
            r is Some <==> self.ids().contains(id.0),
            r matches Some(c) ==> self.holds_cell(id.0, c) && c.pred() == (RecordLockInv { id: id.0 }),
    {
        match self.cells.get(&id.0) {
            Some(c) => Some(c.clone()),
            None => None,
        }
    }

    /// Number of records.
    pub fn len(&self) -> (n: usize)
        ensures
            n == self.ids().len(),
    {
        self.cells.len()
    }
}

proof fn lemma_counter_after_assigns(indexes: Seq<SharedIndex>, ids: Seq<TicketId>, j: int)
    requires
        indexes.len() == ids.len() + 1,
        forall|i: int| 0 <= i < ids.len() ==> #[trigger] SharedIndex::assigned(indexes[i], indexes[i + 1], ids[i]),
        0 <= j <= ids.len(),
    ensures
        indexes[j].next_id() == indexes[0].next_id() + j,
    decreases j,
{
    if j > 0 {
        lemma_counter_after_assigns(indexes, ids, j - 1);
        let i = j - 1;
        assert(SharedIndex::assigned(indexes[i], indexes[i + 1], ids[i]));
    }
}

/// Creates on the shared store assign identifiers under the index write
/// lock, so they take effect one at a time. Whatever the order in which
/// concurrent tasks get the lock, `n` successful creates starting from an
/// index whose counter is `k` hand out exactly `k`, ..., `k + n - 1`, in
/// turn: pairwise distinct, with no gap, and the counter ends at `k + n`.
pub proof fn lemma_assigned_ids_consecutive(indexes: Seq<SharedIndex>, ids: Seq<TicketId>)
    requires
        indexes.len() == ids.len() + 1,
        forall|i: int| 0 <= i < ids.len() ==> #[trigger] SharedIndex::assigned(indexes[i], indexes[i + 1], ids[i]),
    ensures
        forall|i: int| 0 <= i < ids.len() ==> #[trigger] ids[i].0 == indexes[0].next_id() + i,
        forall|i: int, j: int| 0 <= i < j < ids.len() ==> ids[i] != ids[j],
        indexes.last().next_id() == indexes[0].next_id() + ids.len(),
{
    assert forall|i: int| 0 <= i < ids.len() implies #[trigger] ids[i].0 == indexes[0].next_id() + i by {
        lemma_counter_after_assigns(indexes, ids, i);
        assert(SharedIndex::assigned(indexes[i], indexes[i + 1], ids[i]));
    }
    assert forall|i: int, j: int| 0 <= i < j < ids.len() implies ids[i] != ids[j] by {
        assert(ids[i].0 == indexes[0].next_id() + i);
        assert(ids[j].0 == indexes[0].next_id() + j);
    }
    lemma_counter_after_assigns(indexes, ids, ids.len() as int);
}

/// What the index lock guarantees of the index.
pub struct IndexLockInv {}

impl RwLockPredicate<SharedIndex> for IndexLockInv {
    /// The index is well formed.
    open spec fn inv(self, s: SharedIndex) -> bool {
        s.wf()
    }
}

/// A record store that many tasks use at once through a shared reference.
pub struct SharedStore {
    index: RwLock<SharedIndex, IndexLockInv>,
}

impl SharedStore {
    /// An empty store whose first identifier is 0.
    pub fn new() -> (r: Self) {
        SharedStore { index: RwLock::new(SharedIndex::new(), Ghost(IndexLockInv {})) }
    }

    /// Creates a record from the draft while holding the index for write:
    /// the work on the locked index is `SharedIndex::assign`. `None` when no
    /// identifier is left.
    pub fn create(&self, draft: TicketDraft) -> (r: Option<TicketId>) {
        let (mut index, handle) = self.index.acquire_write();
        let r = index.assign(draft);
        handle.release_write(index);
        r
    }

    /// A copy of the record stored under `id`, read under the index lock and
    /// then the record's own lock, both for read; the inner lock is released
    /// first.
    pub fn read(&self, id: TicketId) -> (r: Option<Ticket>)
        ensures
            r matches Some(t) ==> t.id == id,
    {
        let index = self.index.acquire_read();
        let cell = match index.borrow().cell_of(id) {
            Some(c) => c,
            None => {
                index.release_read();
                return None;
            },
        };
        let record = cell.acquire_read();
        let t = record.borrow().snapshot();
        record.release_read();
        index.release_read();
        Some(t)
    }

    /// Merges the patch into the record it names, under the index lock for
    /// read and the record's lock for write: the merge is
    /// `Ticket::apply_patch`. Returns whether there was such a record.
    pub fn patch(&self, patch: TicketPatch) -> (found: bool) {
        let index = self.index.acquire_read();
        let cell = match index.borrow().cell_of(patch.id) {
            Some(c) => c,
            None => {
                index.release_read();
                return false;
            },
        };
        let (mut t, record) = cell.acquire_write();
        t.apply_patch(patch);
        record.release_write(t);
        index.release_read();
        true
    }

    /// Number of records, read under the index lock.
    pub fn len(&self) -> (n: usize) {
        let index = self.index.acquire_read();
        let n = index.borrow().len();
        index.release_read();
        n
    }
}

} // verus!
