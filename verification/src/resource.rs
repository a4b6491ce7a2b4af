//! The resource: the entity producing telemetry, described by its attributes.

use vstd::prelude::*;
use crate::common::KeyValue;
use crate::error::{Invalid, Refusal};
use crate::validate::{Path, unique_keys, keys_refusal, matches_refusal, distinct_keys};

verus! {

/// The entity producing telemetry (a service instance, a host, a process), described by
/// attributes whose keys are unique.
#[derive(Clone, Debug, Default, PartialEq)]
pub struct Resource {
    /// The attributes describing the resource; keys unique.
    pub attributes: Vec<KeyValue>,
    /// How many attributes the producer dropped.
    pub dropped_attributes_count: u32,
}

/// What the rules refuse of a resource at `at`: a repeated attribute key.
pub open spec fn resource_refusal(resource: Resource, at: Seq<char>) -> Option<Refusal> {
    keys_refusal(resource.attributes@, at)
}

/// Whether a resource keeps its rule: its attribute keys are pairwise distinct.
pub open spec fn resource_ok(resource: Resource) -> bool {
    distinct_keys(resource.attributes@)
}

impl Resource {
    /// The rules of a resource: attribute keys are unique.
    pub fn check(&self, at: &Path) -> (r: Result<(), Invalid>)
        ensures
            matches_refusal(r, resource_refusal(*self, at@)),
    {
        unique_keys(self.attributes.as_slice(), at)
    }
}

} // verus!
