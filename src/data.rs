//! Record types of the ticket store and the field-wise patch merge.
use vstd::prelude::*;
use vstd::string::StringSliceAdditionalSpecFns;

use crate::http::{parse_unsigned, unsigned_value};

verus! {

/// Identifier of a record: assigned by the store, strictly increasing from 0.
#[derive(Clone, Copy, Debug, PartialEq, Eq, PartialOrd, Ord, Hash, Structural)]
pub struct TicketId(pub u64);

impl TicketId {
    /// Reads an identifier from unsigned integer text: an optional `+`, then
    /// decimal digits whose value fits 64 bits.
    pub fn parse(s: &str) -> (r: Option<TicketId>)
        ensures
            r == match unsigned_value(s.spec_bytes(), u64::MAX as nat) {
                Some(v) => Some(TicketId(v as u64)),
                None => None::<TicketId>,
            },
    {
        match parse_unsigned(s.as_bytes(), u64::MAX) {
            Some(v) => Some(TicketId(v)),
            None => None,
        }
    }
}

/// Text that does not read as an identifier.
#[derive(Clone, Copy, Debug, PartialEq, Eq, Structural)]
pub struct InvalidTicketId;

impl std::str::FromStr for TicketId {
    type Err = InvalidTicketId;

    fn from_str(s: &str) -> Result<TicketId, InvalidTicketId> {
        match TicketId::parse(s) {
            Some(id) => Ok(id),
            None => Err(InvalidTicketId),
        }
    }
}

/// Workflow state of a record.
#[derive(Clone, Copy, Debug, PartialEq, Eq, Structural)]
pub enum Status {
    ToDo,
    InProgress,
    Done,
}

/// Title of a record, taken as already validated.
#[derive(Clone, Debug, PartialEq, Eq)]
pub struct TicketTitle(pub String);

/// Description of a record, taken as already validated.
#[derive(Clone, Debug, PartialEq, Eq)]
pub struct TicketDescription(pub String);

/// A stored record.
#[derive(Clone, Debug, PartialEq)]
pub struct Ticket {
    pub id: TicketId,
    pub title: TicketTitle,
    pub description: TicketDescription,
    pub status: Status,
}

/// Creation payload: a record without identity.
#[derive(Clone, Debug, PartialEq, Eq)]
pub struct TicketDraft {
    pub title: TicketTitle,
    pub description: TicketDescription,
}

/// Partial update: each present field replaces the record's field, absent ones
/// leave it as it is.
#[derive(Clone, Debug, PartialEq, Eq)]
pub struct TicketPatch {
    pub id: TicketId,
    pub title: Option<TicketTitle>,
    pub description: Option<TicketDescription>,
    pub status: Option<Status>,
}

/// Description given to a draft whose description is left out.
pub open spec fn default_description() -> Seq<char> {
    seq!['D', 'e', 'f', 'a', 'u', 'l', 't', ' ', 'd', 'e', 's', 'c', 'r', 'i', 'p', 't', 'i', 'o', 'n']
}

/// The record that a draft becomes under identifier `id`.
pub open spec fn record_of(id: u64, draft: TicketDraft) -> Ticket {
    Ticket { id: TicketId(id), title: draft.title, description: draft.description, status: Status::ToDo }
}

/// Field-wise merge of a patch into a record.
pub open spec fn merged(t: Ticket, p: TicketPatch) -> Ticket {
    Ticket {
        id: t.id,
        title: match p.title {
            Some(x) => x,
            None => t.title,
        },
        description: match p.description {
            Some(x) => x,
            None => t.description,
        },
        status: match p.status {
            Some(x) => x,
            None => t.status,
        },
    }
}

impl TicketDraft {
    /// A draft with the given title, and the given description or a default one.
    pub fn new(title: String, description: Option<String>) -> (r: Self)
        ensures
            r.title.0 == title,
            r.description.0@ == match description {
                Some(d) => d@,
                None => default_description(),
            },
    {
        let description = match description {
            Some(d) => d,
            None => {
                proof {
                    reveal_strlit("Default description");
                }
                "Default description".to_string()
            },
        };
        TicketDraft { title: TicketTitle(title), description: TicketDescription(description) }
    }
}

impl Ticket {
    /// A copy of this record.
    pub fn snapshot(&self) -> (r: Ticket)
        ensures
            r == *self,
    {
        Ticket {
            id: self.id,
            title: TicketTitle(self.title.0.clone()),
            description: TicketDescription(self.description.0.clone()),
            status: self.status,
        }
    }

    /// Applies a patch field by field: present fields replace the record's,
    /// absent ones are kept. The identifier never changes.
    pub fn apply_patch(&mut self, patch: TicketPatch)
        ensures
            *final(self) == merged(*old(self), patch),
    {
        if let Some(title) = patch.title {
            self.title = title;
        }
        if let Some(description) = patch.description {
            self.description = description;
        }
        if let Some(status) = patch.status {
            self.status = status;
        }
    }
}

} // verus!
