//! A value that must be explicitly defused before it is let go.
//!
//! Rust's `Drop` hook may not fail in verified code, so the check moves to
//! the one release path that the library offers: `release` can only be
//! called, by contract, on a defused value.
use vstd::prelude::*;

verus! {

/// A guard that starts armed and must be defused before release.
#[derive(Clone, Debug)]
pub struct DropBomb {
    armed: bool,
}

impl DropBomb {
    /// Whether the guard still has to be defused.
    pub closed spec fn spec_armed(&self) -> bool {
        self.armed
    }

    /// An armed guard.
    pub fn new() -> (r: Self)
        ensures
            r.spec_armed(),
    {
        DropBomb { armed: true }
    }

    /// Acknowledges the guard: it is no longer armed.
    pub fn defuse(&mut self)
        ensures
            !final(self).spec_armed(),
    {
        self.armed = false;
    }

    /// Whether the guard still has to be defused.
    pub fn is_armed(&self) -> (r: bool)
        ensures
            r == self.spec_armed(),
    {
        self.armed
    }

    /// Lets go of a defused guard.
    pub fn release(self)
        requires
            !self.spec_armed(),
    {
    }
}

} // verus!
