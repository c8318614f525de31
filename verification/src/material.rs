use vstd::prelude::*;
use crate::radiance::Radiance;

verus! {

/// What a surface does to the light that reaches it.
pub trait Material {
    /// The rays that leave the surface.
    type Ray: Copy;

    /// What is recorded of the point where light meets the surface.
    type Hit: Copy;

    /// The colours of the light.
    type Color: Radiance;

    /// The ray that leaves the surface at `record`, and the fraction of each
    /// channel that the surface lets through.
    fn scatter(&self, record: Self::Hit) -> (Self::Ray, Self::Color);
}

} // verus!
