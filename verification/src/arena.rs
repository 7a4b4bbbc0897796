//! Stable host-element identities and the single-slot cells that record them.
//!
//! An [`ElementId`] is an opaque, arena-issued handle correlating a virtual
//! slot (a root, a dynamic text node, a fragment placeholder, a mounted
//! attribute) to a concrete host-side element. The surrounding tree is
//! read-only; the only mutable state is an [`IdCell`], written once when the
//! slot is mounted and read on every later diff or removal pass.

use vstd::prelude::*;

verus! {

/// Stable handle correlating a virtual slot to a concrete host-side element.
#[derive(Clone, Copy, PartialEq, Eq, Structural, Debug, Hash)]
pub struct ElementId(pub usize);

/// Identity of the component scope that owns a rendered subtree.
#[derive(Clone, Copy, PartialEq, Eq, Structural, Debug, Hash)]
pub struct ScopeId(pub usize);

/// A single mutable slot embedded in an otherwise immutable node, recording
/// which host element the slot was mounted as. It starts unset and is filled
/// in by the reconciler after mounting.
#[derive(Clone, Copy, PartialEq, Eq, Debug)]
pub struct IdCell {
    pub id: Option<ElementId>,
}

impl IdCell {
    /// A cell for a slot that has not been mounted yet.
    pub fn unset() -> (c: IdCell)
        ensures
            c.id is None,
    {
        IdCell { id: None }
    }

    /// A cell already holding a host identity.
    pub fn mounted(id: ElementId) -> (c: IdCell)
        ensures
            c.id == Some(id),
    {
        IdCell { id: Some(id) }
    }

    /// Record the host element this slot was mounted as.
    pub fn set(&mut self, id: ElementId)
        ensures
            final(self).id == Some(id),
    {
        self.id = Some(id);
    }

    /// The host identity recorded for this slot, if it was mounted.
    pub fn get(&self) -> (r: Option<ElementId>)
        ensures
            r == self.id,
    {
        self.id
    }

    /// Whether a host identity has been recorded.
    pub fn is_set(&self) -> (r: bool)
        ensures
            r == (self.id is Some),
    {
        self.id.is_some()
    }
}

} // verus!
