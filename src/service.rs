//! The dispatcher: what each routed request does to the store, and the
//! response it gets.
use vstd::prelude::*;

use crate::data::{TicketDraft, TicketId, TicketPatch};
use crate::http::Response;
use crate::shared::SharedStore;
use crate::store::TicketStore;

verus! {

/// A routed request with its decoded body.
pub enum Request {
    /// `POST /tickets` with a draft.
    Create(TicketDraft),
    /// `GET /tickets/<id>`.
    Get(TicketId),
    /// `PATCH /tickets/<id>` with a patch, which names the record itself.
    Patch(TicketPatch),
    /// Any other method or path.
    Unmatched,
}

/// The response owed to `request` and the store after it.
pub open spec fn served(before: TicketStore, request: Request, after: TicketStore, response: Response) -> bool {
    match request {
        Request::Create(draft) => match response {
            Response::Created(id) => before.has_room() && TicketStore::created(before, draft, after, id),
            Response::Unavailable => !before.has_room() && after == before,
            _ => false,
        },
        Request::Get(id) => after == before && response == match before.lookup(id) {
            Some(t) => Response::Found(t),
            None => Response::NotFound,
        },
        Request::Patch(patch) => {
            let found = before.records().contains_key(patch.id.0);
            &&& TicketStore::patched(before, patch, after, found)
            &&& response == if found {
                Response::NoContent
            } else {
                Response::NotFound
            }
        },
        Request::Unmatched => after == before && response == Response::NotFound,
    }
}

/// Serves one request against the store: a create answers 201 with the new
/// identifier (503, with nothing changed, once no identifier is left), a get
/// 200 with the record, a patch 204, and a request for an unknown record or
/// an unknown route 404.
pub fn handle_request(store: &mut TicketStore, request: Request) -> (response: Response)
    requires
        old(store).wf(),
    ensures
        final(store).wf(),
        served(*old(store), request, *final(store), response),
{
    match request {
        Request::Create(draft) => {
            if store.can_create() {
                Response::Created(store.add_ticket(draft))
            } else {
                Response::Unavailable
            }
        },
        Request::Get(id) => match store.get(id) {
            Some(t) => Response::Found(t),
            None => Response::NotFound,
        },
        Request::Patch(patch) => {
            if store.update(patch) {
                Response::NoContent
            } else {
                Response::NotFound
            }
        },
        Request::Unmatched => Response::NotFound,
    }
}

/// A get of an identifier that the store does not hold answers 404 and
/// leaves the store as it was.
pub proof fn lemma_get_absent_is_not_found(before: TicketStore, id: TicketId, after: TicketStore, response: Response)
    requires
        before.lookup(id) is None,
        served(before, Request::Get(id), after, response),
    ensures
        response == Response::NotFound,
        after == before,
{
}

/// Serves one request against a store shared with other tasks. What the
/// store holds is up to every task that uses it, so the contract says which
/// responses can come: a create answers 201 or 503 (which of the two is
/// `SharedIndex::assign`'s to decide), a get 200 with the record it names or
/// 404, a patch 204 or 404, and an unknown route 404.
pub fn serve_shared(store: &SharedStore, request: Request) -> (response: Response)
    ensures
        match request {
            Request::Create(_) => response is Created || response is Unavailable,
            Request::Get(id) => match response {
                Response::Found(t) => t.id == id,
                Response::NotFound => true,
                _ => false,
            },
            Request::Patch(_) => response is NoContent || response is NotFound,
            Request::Unmatched => response is NotFound,
        },
{
    match request {
        Request::Create(draft) => match store.create(draft) {
            Some(id) => Response::Created(id),
            None => Response::Unavailable,
        },
        Request::Get(id) => match store.read(id) {
            Some(t) => Response::Found(t),
            None => Response::NotFound,
        },
        Request::Patch(patch) => {
            if store.patch(patch) {
                Response::NoContent
            } else {
                Response::NotFound
            }
        },
        Request::Unmatched => Response::NotFound,
    }
}

} // verus!
