//! Coordinates, sizes and the tag that ties a displayed entity to its cell.

use vstd::prelude::*;

verus! {

/// Zero-based `(row, column)` position of one cell.
#[derive(Clone, Copy, Debug, PartialEq, Eq, Hash, Structural)]
pub struct GridID(pub usize, pub usize);

impl GridID {
    pub fn row(&self) -> (r: usize)
        ensures
            r == self.0,
    {
        self.0
    }

    pub fn column(&self) -> (c: usize)
        ensures
            c == self.1,
    {
        self.1
    }
}

/// Extent of a grid as `(width, height)`.
#[derive(Clone, Copy, Debug, PartialEq, Eq, Structural)]
pub struct Size(pub usize, pub usize);

impl Size {
    /// Number of slots of a grid of this size.
    pub open spec fn area(self) -> nat {
        (self.0 * self.1) as nat
    }

    /// Both extents are at least one.
    pub open spec fn is_positive(self) -> bool {
        self.0 >= 1 && self.1 >= 1
    }
}

/// Marks a displayed entity as standing for the cell `id`.
#[derive(Clone, Copy, Debug, PartialEq, Eq, Structural)]
pub struct CellTag {
    pub id: GridID,
}

} // verus!
