//! The record store: an ordered index from identifier to record, and the
//! counter from which identifiers are assigned.
use std::collections::BTreeMap;
use vstd::prelude::*;

use crate::data::{merged, record_of, Status, Ticket, TicketDraft, TicketId, TicketPatch};

verus! {

broadcast use vstd::std_specs::btree::group_btree_axioms, vstd::laws_cmp::group_laws_cmp;

/// Records keyed by identifier, with the counter of the next identifier.
pub struct TicketStore {
    tickets: BTreeMap<u64, Ticket>,
    counter: u64,
}

impl TicketStore {
    /// The records, by identifier.
    pub closed spec fn records(&self) -> Map<u64, Ticket> {
        self.tickets@
    }

    /// The identifier that the next create assigns.
    pub closed spec fn next_id(&self) -> nat {
        self.counter as nat
    }

    /// The identifiers in use are exactly those below the counter, and each
    /// record carries the identifier it is stored under.
    pub open spec fn wf(&self) -> bool {
        &&& forall|k: u64| #[trigger] self.records().contains_key(k) <==> k < self.next_id()
        &&& forall|k: u64| #[trigger]
            self.records().contains_key(k) ==> self.records()[k].id == TicketId(k)
        &&& self.next_id() <= u64::MAX
    }

    /// What a lookup of `id` yields.
    pub open spec fn lookup(&self, id: TicketId) -> Option<Ticket> {
        if self.records().contains_key(id.0) {
            Some(self.records()[id.0])
        } else {
            None
        }
    }

    /// Whether a create can still assign a fresh identifier.
    pub open spec fn has_room(&self) -> bool {
        self.next_id() < u64::MAX
    }

    /// `after` is `before` with `draft` stored under the fresh identifier `id`.
    pub open spec fn created(before: TicketStore, draft: TicketDraft, after: TicketStore, id: TicketId) -> bool {
        &&& id.0 == before.next_id()
        &&& after.next_id() == before.next_id() + 1
        &&& after.records() == before.records().insert(id.0, record_of(id.0, draft))
    }

    /// `after` is `before` with `patch` merged into the record it names, if
    /// there is one; `found` tells which.
    pub open spec fn patched(before: TicketStore, patch: TicketPatch, after: TicketStore, found: bool) -> bool {
        &&& found == before.records().contains_key(patch.id.0)
        &&& after.next_id() == before.next_id()
        &&& after.records() == if found {
            before.records().insert(patch.id.0, merged(before.records()[patch.id.0], patch))
        } else {
            before.records()
        }
    }

    /// An empty store whose first identifier is 0.
    pub fn new() -> (r: Self)
        ensures
            r.wf(),
            r.records() == Map::<u64, Ticket>::empty(),
            r.next_id() == 0,
    {
        TicketStore { tickets: BTreeMap::new(), counter: 0 }
    }

    /// Stores the draft as a new record with status `ToDo` under the next
    /// identifier, advances the counter by one and returns that identifier.
    pub fn add_ticket(&mut self, draft: TicketDraft) -> (id: TicketId)
        requires
            old(self).wf(),
            old(self).has_room(),
        ensures
            final(self).wf(),
            TicketStore::created(*old(self), draft, *final(self), id),
    {
        let id = TicketId(self.counter);
        self.counter = self.counter + 1;
        let ticket = Ticket {
            id,
            title: draft.title,
            description: draft.description,
            status: Status::ToDo,
        };
        self.tickets.insert(id.0, ticket);
        proof {
            assert(self.records() =~= old(self).records().insert(id.0, record_of(id.0, draft)));
        }
        id
    }

    /// A snapshot of the record stored under `id`, or `None` if there is none.
    pub fn get(&self, id: TicketId) -> (r: Option<Ticket>)
        ensures
            r == self.lookup(id),
    {
        match self.tickets.get(&id.0) {
            Some(t) => Some(t.snapshot()),
            None => None,
        }
    }

    /// Merges the patch into the record it names; returns whether there was
    /// such a record. The index and the counter are left as they are.
    pub fn update(&mut self, patch: TicketPatch) -> (found: bool)
        requires
            old(self).wf(),
        ensures
            final(self).wf(),
            TicketStore::patched(*old(self), patch, *final(self), found),
    {
        let key = patch.id.0;
        match self.tickets.get(&key) {
            Some(t) => {
                let mut ticket = t.snapshot();
                ticket.apply_patch(patch);
                self.tickets.insert(key, ticket);
                true
            },
            None => false,
        }
    }

    /// Whether a create can still assign a fresh identifier.
    pub fn can_create(&self) -> (r: bool)
        ensures
            r == self.has_room(),
    {
        self.counter < u64::MAX
    }

    /// Number of records.
    pub fn len(&self) -> (n: usize)
        ensures
            n == self.records().len(),
    {
        self.tickets.len()
    }
}

proof fn lemma_counter_after_creates(stores: Seq<TicketStore>, drafts: Seq<TicketDraft>, ids: Seq<TicketId>, j: int)
    requires
        stores.len() == drafts.len() + 1,
        ids.len() == drafts.len(),
        forall|i: int|
            0 <= i < drafts.len() ==> #[trigger] TicketStore::created(stores[i], drafts[i], stores[i + 1], ids[i]),
        0 <= j <= drafts.len(),
    ensures
        stores[j].next_id() == stores[0].next_id() + j,
    decreases j,
{
    if j > 0 {
        lemma_counter_after_creates(stores, drafts, ids, j - 1);
        let i = j - 1;
        assert(TicketStore::created(stores[i], drafts[i], stores[i + 1], ids[i]));
    }
}

/// Creates take effect one at a time, in some order, whichever access layer
/// admits them. Whatever that order, `n` creates starting from a store whose
/// counter is `k` hand out exactly the identifiers `k`, `k + 1`, ...,
/// `k + n - 1`, in turn: pairwise distinct, with no gap, and the counter ends
/// at `k + n`.
pub proof fn lemma_create_ids_consecutive(stores: Seq<TicketStore>, drafts: Seq<TicketDraft>, ids: Seq<TicketId>)
    requires
        stores.len() == drafts.len() + 1,
        ids.len() == drafts.len(),
        forall|i: int|
            0 <= i < drafts.len() ==> #[trigger] TicketStore::created(stores[i], drafts[i], stores[i + 1], ids[i]),
    ensures
        forall|i: int| 0 <= i < ids.len() ==> #[trigger] ids[i].0 == stores[0].next_id() + i,
        forall|i: int, j: int| 0 <= i < j < ids.len() ==> ids[i] != ids[j],
        stores.last().next_id() == stores[0].next_id() + ids.len(),
{
    assert forall|i: int| 0 <= i < ids.len() implies #[trigger] ids[i].0 == stores[0].next_id() + i by {
        lemma_counter_after_creates(stores, drafts, ids, i);
        assert(TicketStore::created(stores[i], drafts[i], stores[i + 1], ids[i]));
    }
    assert forall|i: int, j: int| 0 <= i < j < ids.len() implies ids[i] != ids[j] by {
        assert(ids[i].0 == stores[0].next_id() + i);
        assert(ids[j].0 == stores[0].next_id() + j);
    }
    lemma_counter_after_creates(stores, drafts, ids, drafts.len() as int);
}

/// A lookup after a create, of the identifier that the create returned,
/// gives a record with the draft's title and description and status `ToDo`.
pub proof fn lemma_get_after_create(before: TicketStore, draft: TicketDraft, after: TicketStore, id: TicketId)
    requires
        before.wf(),
        TicketStore::created(before, draft, after, id),
    ensures
        after.lookup(id) == Some(
            Ticket { id, title: draft.title, description: draft.description, status: Status::ToDo },
        ),
{
}

/// A patch that finds its record replaces exactly the fields it carries:
/// a field absent from the patch keeps its value, the identifier never
/// changes, and every other record is left as it was.
pub proof fn lemma_patch_changes_only_present_fields(before: TicketStore, patch: TicketPatch, after: TicketStore)
    requires
        before.wf(),
        TicketStore::patched(before, patch, after, true),
    ensures
        ({
            let old_t = before.lookup(patch.id)->Some_0;
            let new_t = after.lookup(patch.id)->Some_0;
            &&& before.lookup(patch.id) is Some
            &&& after.lookup(patch.id) is Some
            &&& new_t.id == old_t.id
            &&& new_t.title == match patch.title {
                Some(x) => x,
                None => old_t.title,
            }
            &&& new_t.description == match patch.description {
                Some(x) => x,
                None => old_t.description,
            }
            &&& new_t.status == match patch.status {
                Some(x) => x,
                None => old_t.status,
            }
        }),
        forall|k: u64| k != patch.id.0 ==> #[trigger] after.lookup(TicketId(k)) == before.lookup(TicketId(k)),
{
}

} // verus!
