//! A small ticket store served over a minimal HTTP/1.1 layer.
//!
//! - `data`: the record types and the field-wise patch merge;
//! - `store`: the identifier-keyed record store and its laws;
//! - `actor`: the step of the single worker that owns a store;
//! - `shared`: the store behind an index lock and per-record locks;
//! - `http`: request-head reading, body completion, routing, response framing;
//! - `service`: what each routed request does, against either store;
//! - `guard`: a value that must be explicitly defused before release.
use vstd::prelude::*;

pub mod actor;
pub mod data;
pub mod guard;
pub mod http;
pub mod service;
pub mod shared;
pub mod store;

verus! {

} // verus!
