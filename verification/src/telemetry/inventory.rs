//! Inventory snapshot rows.

use vstd::prelude::*;

use crate::telemetry::attributes::Attributes;
use crate::telemetry::context::Subject;

verus! {

/// One resource in an inventory snapshot.
#[derive(Clone, Debug, PartialEq, Eq, Hash)]
#[non_exhaustive]
pub struct InventoryItem {
    pub subject: Subject,
    /// The containing resource, when the source reports one.
    ///
    /// This is a containment hint on a flat list, not topology: typed
    /// relationships belong in a resource graph.
    pub parent: Option<Subject>,
    pub attributes: Attributes,
}

impl InventoryItem {
    pub fn new(subject: Subject, attributes: Attributes) -> (made: InventoryItem)
        ensures
            made.subject == subject,
            made.parent is None,
            made.attributes == attributes,
    {
        InventoryItem { subject, parent: None, attributes }
    }

    pub fn with_parent(self, parent: Subject) -> (made: InventoryItem)
        ensures
            made == (InventoryItem { parent: Some(parent), ..self }),
    {
        InventoryItem { parent: Some(parent), ..self }
    }
}

} // verus!
