//! Coordinates whose ordinates are binary64 bit patterns.
use vstd::prelude::*;
use crate::binary64::Binary64;

verus! {

/// A coordinate in the plane.
#[derive(Clone, Copy, Debug, PartialEq, Eq, Structural)]
pub struct Coord {
    pub x: Binary64,
    pub y: Binary64,
}

/// A coordinate in space.
#[derive(Clone, Copy, Debug, PartialEq, Eq, Structural)]
pub struct Coord3D {
    pub x: Binary64,
    pub y: Binary64,
    pub z: Binary64,
}

impl Coord {
    /// Whether both ordinates are finite.
    pub open spec fn finite(self) -> bool {
        self.x.finite() && self.y.finite()
    }

    pub fn new(x: Binary64, y: Binary64) -> (coord: Coord)
        ensures
            coord == (Coord { x, y }),
    {
        Coord { x, y }
    }
}

impl Coord3D {
    /// Whether the three ordinates are finite.
    pub open spec fn finite(self) -> bool {
        self.x.finite() && self.y.finite() && self.z.finite()
    }

    /// The coordinate without its height.
    pub open spec fn planar(self) -> Coord {
        Coord { x: self.x, y: self.y }
    }

    pub fn new(x: Binary64, y: Binary64, z: Binary64) -> (coord: Coord3D)
        ensures
            coord == (Coord3D { x, y, z }),
    {
        Coord3D { x, y, z }
    }
}

} // verus!
