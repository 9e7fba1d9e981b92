//! The single-owner worker: one command at a time against the store it owns.
//! The mailbox and the reply channels belong to the caller; this module
//! decides what each command does and what is replied.
use vstd::prelude::*;

use crate::data::{TicketDraft, TicketId, Ticket};
use crate::store::TicketStore;

verus! {

/// A request to the worker.
pub enum Command {
    Insert { draft: TicketDraft },
    Get { id: TicketId },
}

/// The worker's answer to one command.
pub enum Reply {
    Inserted(TicketId),
    Found(Option<Ticket>),
    /// An insert that found no identifier left to assign.
    Exhausted,
}

/// Handles one command against the worker's store and gives the one reply
/// to send back. An insert creates a record, or, once no identifier is left,
/// answers `Exhausted` and changes nothing; a get leaves the store as it is.
pub fn handle_command(store: &mut TicketStore, command: Command) -> (reply: Reply)
    requires
        old(store).wf(),
    ensures
        final(store).wf(),
        match command {
            Command::Insert { draft } => match reply {
                Reply::Inserted(id) => old(store).has_room() && TicketStore::created(*old(store), draft, *final(store), id),
                Reply::Exhausted => !old(store).has_room() && *final(store) == *old(store),
                Reply::Found(_) => false,
            },
            Command::Get { id } => *final(store) == *old(store) && reply == Reply::Found(old(store).lookup(id)),
        },
{
    match command {
        Command::Insert { draft } => {
            if store.can_create() {
                Reply::Inserted(store.add_ticket(draft))
            } else {
                Reply::Exhausted
            }
        },
        Command::Get { id } => Reply::Found(store.get(id)),
    }
}

} // verus!
