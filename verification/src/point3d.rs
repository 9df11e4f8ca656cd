//! A location in space.

use crate::binary64::{bits_equal, same_number};
use vstd::prelude::*;

verus! {

/// A point of the ambient space. Each coordinate is a binary64 bit pattern.
#[derive(Debug, Clone, Copy)]
pub struct Point3D {
    pub x: u64,
    pub y: u64,
    pub z: u64,
}

impl Point3D {
    /// Both points lie at the same place: every coordinate is the same number.
    /// A point with a missing coordinate lies nowhere, so it coincides with
    /// no point.
    pub open spec fn coincides(self, other: Point3D) -> bool {
        &&& same_number(self.x, other.x)
        &&& same_number(self.y, other.y)
        &&& same_number(self.z, other.z)
    }

    /// The point with the given coordinates.
    pub fn new(x: u64, y: u64, z: u64) -> (p: Self)
        ensures
            p == (Point3D { x, y, z }),
    {
        Self { x, y, z }
    }

    /// Tells whether both points lie at the same place.
    pub fn same_place(&self, other: &Point3D) -> (r: bool)
        ensures
            r == self.coincides(*other),
    {
        bits_equal(self.x, other.x) && bits_equal(self.y, other.y) && bits_equal(self.z, other.z)
    }
}

impl PartialEq for Point3D {
    fn eq(&self, other: &Point3D) -> (r: bool) {
        self.same_place(other)
    }
}

impl vstd::std_specs::cmp::PartialEqSpecImpl for Point3D {
    open spec fn obeys_eq_spec() -> bool {
        true
    }

    open spec fn eq_spec(&self, other: &Point3D) -> bool {
        self.coincides(*other)
    }
}

/// No two of the three points lie at the same place.
pub open spec fn pairwise_distinct(a: Point3D, b: Point3D, c: Point3D) -> bool {
    &&& !a.coincides(b)
    &&& !a.coincides(c)
    &&& !b.coincides(c)
}

} // verus!
