//! The dependency tracker: the accumulator `preload` fills with the resources
//! that must be loaded before construction relies on them.

use vstd::prelude::*;

verus! {

/// One discovered dependency: the path to register and the tag of the asset
/// type the schema declared for the registering field.
#[derive(Debug, PartialEq, Eq)]
pub struct Registration {
    pub path: String,
    pub ty: u64,
}

/// Accumulates registrations in the order they are discovered. Deduplication
/// and resolution are the embedding system's concern; the tracker only
/// records.
#[derive(Debug, PartialEq, Eq)]
pub struct DependencyTracker {
    pub registrations: Vec<Registration>,
}

impl DependencyTracker {
    /// An empty tracker.
    pub fn new() -> (r: Self)
        ensures
            r.registrations@ == Seq::<Registration>::empty(),
    {
        DependencyTracker { registrations: Vec::new() }
    }

    /// Records one dependency: `path`, expected to resolve to an asset of the
    /// declared type `ty`.
    pub fn register(&mut self, path: String, ty: u64)
        ensures
            final(self).registrations@ == old(self).registrations@.push(
                Registration { path, ty },
            ),
    {
        self.registrations.push(Registration { path, ty });
    }

    /// How many registrations have been recorded.
    pub fn len(&self) -> (r: usize)
        ensures
            r == self.registrations@.len(),
    {
        self.registrations.len()
    }
}

} // verus!
