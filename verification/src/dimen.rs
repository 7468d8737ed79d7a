//! Two-component vectors used for sizes and positions.

use vstd::prelude::*;

verus! {

/// A vector with two u32 values.
pub type UVec2 = Vector2<u32>;

/// A vector containing two numeric values. This may represent a size or
/// position.
#[derive(Debug, Clone, Copy, PartialEq, Eq, Hash, Structural)]
pub struct Vector2<T> {
    /// The horizontal component of the vector.
    pub x: T,
    /// The vertical component of the vector.
    pub y: T,
}

impl<T> Vector2<T> {
    /// Instantiates a new `Vector2` from the specified horizontal and
    /// vertical components.
    pub fn new(x: T, y: T) -> (v: Self)
        ensures
            v == (Vector2 { x, y }),
    {
        Vector2 { x, y }
    }
}

} // verus!
