//! The state of one pointing device: the corners as last reported, the screen
//! last committed, and whether the stream to the consumer is open.

use crate::point3d::{pairwise_distinct, Point3D};
use crate::screen::{DegenerateScreenError, Screen};
use vstd::prelude::*;

verus! {

/// How many numbers describe a ray: a point on it and a second point.
pub const RAY_NUMBERS: usize = 6;

/// One of the three corners that give a screen.
#[derive(Debug, Clone, Copy, PartialEq, Eq, Structural)]
pub enum Corner {
    TopLeft,
    BottomLeft,
    BottomRight,
}

/// What is left to do once a screen has been committed.
#[derive(Debug, Clone, Copy, PartialEq, Eq, Structural)]
pub enum AfterCommit {
    /// No stream is open yet: open one.
    OpenStream,
    /// The stream is open already.
    KeepStream,
}

/// The corners as buffered, the active screen and the state of the stream.
/// A stream is only ever open while a screen is active.
#[derive(Debug, Clone, Copy)]
pub struct ScreenPointer {
    top_left: Point3D,
    bottom_left: Point3D,
    bottom_right: Point3D,
    screen: Option<Screen>,
    streaming: bool,
}

impl ScreenPointer {
    #[verifier::type_invariant]
    spec fn stream_needs_screen(self) -> bool {
        self.streaming ==> self.screen is Some
    }

    /// The buffered value of a corner.
    pub closed spec fn spec_corner(&self, which: Corner) -> Point3D {
        match which {
            Corner::TopLeft => self.top_left,
            Corner::BottomLeft => self.bottom_left,
            Corner::BottomRight => self.bottom_right,
        }
    }

    /// The active screen, if one was committed.
    pub closed spec fn spec_screen(&self) -> Option<Screen> {
        self.screen
    }

    /// The stream to the consumer is open.
    pub closed spec fn spec_is_streaming(&self) -> bool {
        self.streaming
    }

    /// Every buffered corner is the same in both states.
    pub open spec fn same_corners(&self, other: &ScreenPointer) -> bool {
        forall|which: Corner| #[trigger] self.spec_corner(which) == other.spec_corner(which)
    }

    /// A device of which nothing is known yet: every corner lies at zero, no
    /// screen is active and no stream is open.
    pub fn new() -> (p: Self)
        ensures
            forall|which: Corner| #[trigger] p.spec_corner(which) == (Point3D { x: 0, y: 0, z: 0 }),
            p.spec_screen() is None,
            !p.spec_is_streaming(),
    {
        let zero = Point3D::new(0, 0, 0);
        Self { top_left: zero, bottom_left: zero, bottom_right: zero, screen: None, streaming: false }
    }

    /// The buffered value of a corner.
    #[verifier::when_used_as_spec(spec_corner)]
    pub fn corner(&self, which: Corner) -> (p: Point3D)
        ensures
            p == self.spec_corner(which),
    {
        match which {
            Corner::TopLeft => self.top_left,
            Corner::BottomLeft => self.bottom_left,
            Corner::BottomRight => self.bottom_right,
        }
    }

    /// The active screen, if one was committed.
    #[verifier::when_used_as_spec(spec_screen)]
    pub fn screen(&self) -> (s: Option<Screen>)
        ensures
            s == self.spec_screen(),
    {
        self.screen
    }

    /// Tells whether the stream to the consumer is open. It never is without
    /// an active screen.
    #[verifier::when_used_as_spec(spec_is_streaming)]
    pub fn is_streaming(&self) -> (r: bool)
        ensures
            r == self.spec_is_streaming(),
            r ==> self.spec_screen() is Some,
    {
        proof {
            use_type_invariant(self);
        }
        self.streaming
    }

    /// Buffers a new value for one corner. The other two corners, the active
    /// screen and the stream stay as they are: a new corner takes effect only
    /// with the next commit.
    pub fn set_corner(&mut self, which: Corner, x: u64, y: u64, z: u64)
        ensures
            final(self).spec_corner(which) == (Point3D { x, y, z }),
            forall|other: Corner|
                other != which ==> #[trigger] final(self).spec_corner(other) == old(
                    self,
                ).spec_corner(other),
            final(self).spec_screen() == old(self).spec_screen(),
            final(self).spec_is_streaming() == old(self).spec_is_streaming(),
    {
        proof {
            use_type_invariant(&*self);
        }
        let p = Point3D::new(x, y, z);
        match which {
            Corner::TopLeft => {
                self.top_left = p;
            },
            Corner::BottomLeft => {
                self.bottom_left = p;
            },
            Corner::BottomRight => {
                self.bottom_right = p;
            },
        }
    }

    /// Builds a screen from the buffered corners and makes it the active one.
    /// Where two corners lie at the same place nothing changes, and the
    /// screen that was active stays so. A success says whether a stream has
    /// yet to be opened.
    pub fn commit(&mut self) -> (r: Result<AfterCommit, DegenerateScreenError>)
        ensures
            final(self).same_corners(old(self)),
            final(self).spec_is_streaming() == old(self).spec_is_streaming(),
            r is Ok <==> pairwise_distinct(
                old(self).spec_corner(Corner::TopLeft),
                old(self).spec_corner(Corner::BottomLeft),
                old(self).spec_corner(Corner::BottomRight),
            ),
            r is Err ==> final(self).spec_screen() == old(self).spec_screen(),
            r matches Ok(after) ==> {
                &&& final(self).spec_screen() matches Some(s)
                &&& s.spec_top_left() == old(self).spec_corner(Corner::TopLeft)
                &&& s.spec_origin() == old(self).spec_corner(Corner::BottomLeft)
                &&& s.spec_bottom_right() == old(self).spec_corner(Corner::BottomRight)
                &&& after == if old(self).spec_is_streaming() {
                    AfterCommit::KeepStream
                } else {
                    AfterCommit::OpenStream
                }
            },
    {
        proof {
            use_type_invariant(&*self);
        }
        match Screen::new(self.top_left, self.bottom_left, self.bottom_right) {
            Ok(screen) => {
                self.screen = Some(screen);
                if self.streaming {
                    Ok(AfterCommit::KeepStream)
                } else {
                    Ok(AfterCommit::OpenStream)
                }
            },
            Err(e) => Err(e),
        }
    }

    /// Records that a stream to the consumer was opened. Without an active
    /// screen there is nothing to stream, and the state stays as it is.
    pub fn stream_opened(&mut self)
        ensures
            final(self).same_corners(old(self)),
            final(self).spec_screen() == old(self).spec_screen(),
            final(self).spec_is_streaming() == old(self).spec_screen() is Some,
    {
        proof {
            use_type_invariant(&*self);
        }
        if self.screen.is_some() {
            self.streaming = true;
        }
    }

    /// The screen that a ray described by `numbers` numbers is to be aimed
    /// at and its crossing point sent for: the active screen, where the ray
    /// is well formed and the stream is open. Anything else is passed over.
    pub fn ray_target(&self, numbers: usize) -> (target: Option<Screen>)
        ensures
            target == if numbers == RAY_NUMBERS && self.spec_is_streaming() {
                self.spec_screen()
            } else {
                None
            },
            target is Some <==> numbers == RAY_NUMBERS && self.spec_is_streaming(),
    {
        proof {
            use_type_invariant(self);
        }
        if numbers == RAY_NUMBERS && self.streaming {
            self.screen
        } else {
            None
        }
    }
}

} // verus!
