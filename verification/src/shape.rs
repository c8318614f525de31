use vstd::prelude::*;

verus! {

/// A surface that a ray can meet.
pub trait Shape {
    /// The rays that are tested against the shape.
    type Ray: Copy;

    /// What is recorded of a meeting point.
    type Hit: Copy;

    /// Tests `ray` against the shape. `closest` is the nearest hit that the
    /// ray is known to have so far, if it has one. The result is a hit on this
    /// shape that lies nearer still, or `None` where there is no such hit.
    fn intersect(&self, ray: Self::Ray, closest: Option<Self::Hit>) -> Option<Self::Hit>;
}

} // verus!
