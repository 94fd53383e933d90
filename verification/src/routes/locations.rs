//! Storage locations (binders, boxes).
use vstd::prelude::*;

verus! {

/// The form that adds a storage location.
pub struct NewLocation {
    pub name: String,
    pub location_type: String,
    pub description: Option<String>,
}

} // verus!
