//! The target surface, given by three of its corners.

use crate::point3d::{pairwise_distinct, Point3D};
use vstd::prelude::*;

verus! {

/// Why a screen could not be built: two of its corners lie at the same place.
#[derive(Debug, Clone, Copy)]
pub struct DegenerateScreenError;

impl DegenerateScreenError {
    /// The reason in words.
    pub fn message(&self) -> (text: &'static str)
        ensures
            text@ == "screen points must be distinct"@,
    {
        "screen points must be distinct"
    }
}

/// A planar target surface. Its bottom left corner is the origin of the
/// screen's own coordinates, the bottom right corner lies at (1, 0) and the
/// top left corner at (0, 1).
#[derive(Debug, Clone, Copy)]
pub struct Screen {
    top_left: Point3D,
    bottom_left: Point3D,
    bottom_right: Point3D,
}

impl Screen {
    #[verifier::type_invariant]
    spec fn corners_distinct(self) -> bool {
        pairwise_distinct(self.top_left, self.bottom_left, self.bottom_right)
    }

    /// The corner at (0, 1).
    pub closed spec fn spec_top_left(&self) -> Point3D {
        self.top_left
    }

    /// The corner at (0, 0).
    pub closed spec fn spec_origin(&self) -> Point3D {
        self.bottom_left
    }

    /// The corner at (1, 0).
    pub closed spec fn spec_bottom_right(&self) -> Point3D {
        self.bottom_right
    }

    /// Builds the screen with the given corners, unless two of them lie at
    /// the same place.
    pub fn new(top_left: Point3D, bottom_left: Point3D, bottom_right: Point3D) -> (r: Result<
        Self,
        DegenerateScreenError,
    >)
        ensures
            r is Ok <==> pairwise_distinct(top_left, bottom_left, bottom_right),
            r matches Ok(s) ==> {
                &&& s.spec_top_left() == top_left
                &&& s.spec_origin() == bottom_left
                &&& s.spec_bottom_right() == bottom_right
            },
    {
        if top_left.same_place(&bottom_left) || top_left.same_place(&bottom_right)
            || bottom_left.same_place(&bottom_right) {
            return Err(DegenerateScreenError);
        }
        Ok(Self { top_left, bottom_left, bottom_right })
    }

    /// The corner at (0, 1).
    #[verifier::when_used_as_spec(spec_top_left)]
    pub fn top_left(&self) -> (p: Point3D)
        ensures
            p == self.spec_top_left(),
    {
        self.top_left
    }

    /// The corner at (0, 0).
    #[verifier::when_used_as_spec(spec_origin)]
    pub fn origin(&self) -> (p: Point3D)
        ensures
            p == self.spec_origin(),
    {
        self.bottom_left
    }

    /// The corner at (1, 0).
    #[verifier::when_used_as_spec(spec_bottom_right)]
    pub fn bottom_right(&self) -> (p: Point3D)
        ensures
            p == self.spec_bottom_right(),
    {
        self.bottom_right
    }

    /// The three corners, top left, bottom left, bottom right. In every
    /// screen they are pairwise distinct.
    pub fn corners(&self) -> (c: (Point3D, Point3D, Point3D))
        ensures
            c.0 == self.spec_top_left(),
            c.1 == self.spec_origin(),
            c.2 == self.spec_bottom_right(),
            pairwise_distinct(c.0, c.1, c.2),
    {
        proof {
            use_type_invariant(self);
        }
        (self.top_left, self.bottom_left, self.bottom_right)
    }
}

} // verus!
