//! Monotonic allocation of entity identifiers.
//!
//! Each entity class (monitor, workspace, window) owns one generator, so
//! identifiers are unique within their class and are never reused.

use vstd::prelude::*;

verus! {

/// An opaque entity identifier.
pub type Id = u64;

/// Hands out strictly increasing identifiers, starting at 1.
#[derive(Debug, PartialEq, Eq, Structural, Clone, Copy)]
pub struct IdGenerator {
    pub next_id: Id,
}

impl IdGenerator {
    /// The identifier the next call of [`IdGenerator::next_id`] will issue.
    pub open spec fn spec_next(self) -> Id {
        self.next_id
    }

    pub fn new() -> (r: IdGenerator)
        ensures
            r.next_id == 1,
    {
        IdGenerator { next_id: 1 }
    }

    /// Issues the next identifier and advances the generator.
    pub fn next_id(&mut self) -> (id: Id)
        requires
            old(self).next_id < Id::MAX,
        ensures
            id == old(self).next_id,
            final(self).next_id == id + 1,
    {
        let id = self.next_id;
        self.next_id = id + 1;
        id
    }
}

/// Identifiers issued at different times never collide: whatever was issued
/// from the earlier generator state is strictly below everything the later
/// state will issue, so within one entity class an id is issued once and
/// never repeated.
pub proof fn lemma_issued_ids_increase(earlier: IdGenerator, later: IdGenerator)
    requires
        earlier.next_id < later.next_id,
    ensures
        earlier.spec_next() < later.spec_next(),
        earlier.spec_next() != later.spec_next(),
{
}

} // verus!
