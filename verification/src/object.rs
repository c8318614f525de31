use vstd::prelude::*;

verus! {

/// A shape together with the material that it is made of.
pub struct Object<S, M> {
    /// The object's shape.
    pub shape: S,
    /// The object's material.
    pub material: M,
}

impl<S, M> Object<S, M> {
    /// An object of the given shape and material.
    pub fn new(shape: S, material: M) -> (object: Self)
        ensures
            object.shape == shape,
            object.material == material,
    {
        Object { shape, material }
    }
}

} // verus!
