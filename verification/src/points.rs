//! The consumer's list of live points, one for each producer connected.

use vstd::prelude::*;

verus! {

/// The points that the consumer shows. Each producer registers one point and
/// moves it with every frame it sends; a point is never removed. A position
/// is a pair of binary64 bit patterns.
#[derive(Debug)]
pub struct LivePoints {
    positions: Vec<(u64, u64)>,
}

impl View for LivePoints {
    type V = Seq<(u64, u64)>;

    closed spec fn view(&self) -> Seq<(u64, u64)> {
        self.positions@
    }
}

impl LivePoints {
    /// No point yet.
    pub fn new() -> (points: Self)
        ensures
            points@ == Seq::<(u64, u64)>::empty(),
    {
        Self { positions: Vec::new() }
    }

    /// The number of points.
    pub fn len(&self) -> (n: usize)
        ensures
            n == self@.len(),
    {
        self.positions.len()
    }

    /// Adds a point at the screen's origin and returns its index.
    pub fn register(&mut self) -> (index: usize)
        ensures
            final(self)@ == old(self)@.push((0u64, 0u64)),
            index == old(self)@.len(),
    {
        self.positions.push((0, 0));
        self.positions.len() - 1
    }

    /// Moves the point at `index` and leaves every other point where it is.
    /// Tells whether there is such a point; if not, nothing changes.
    pub fn update_position(&mut self, index: usize, x: u64, y: u64) -> (found: bool)
        ensures
            found == (index < old(self)@.len()),
            found ==> final(self)@ == old(self)@.update(index as int, (x, y)),
            !found ==> final(self)@ == old(self)@,
    {
        if index < self.positions.len() {
            self.positions[index] = (x, y);
            true
        } else {
            false
        }
    }

    /// The position of the point at `index`, if there is one.
    pub fn position(&self, index: usize) -> (p: Option<(u64, u64)>)
        ensures
            p == if index < self@.len() {
                Some(self@[index as int])
            } else {
                None
            },
    {
        if index < self.positions.len() {
            Some(self.positions[index])
        } else {
            None
        }
    }
}

} // verus!
