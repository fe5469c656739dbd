use vstd::prelude::*;

use crate::bounding_box::{within, BoundingBox};
use crate::coordinate::Coordinate;

verus! {

/// What mission control knows: the grid's upper right corner and, in the
/// order they were left, the cells where rovers were lost.
pub struct HoustonView {
    pub bounds: (int, int),
    pub scents: Seq<(int, int)>,
}

/// Mission control: the grid's extent and the scents left so far.
#[derive(Debug, PartialEq)]
pub struct Houston {
    bounding_box: BoundingBox,
    scents: Vec<Coordinate>,
}

impl View for Houston {
    type V = HoustonView;

    closed spec fn view(&self) -> HoustonView {
        HoustonView {
            bounds: self.bounding_box@,
            scents: self.scents@.map_values(|c: Coordinate| c@),
        }
    }
}

impl Houston {
    /// Mission control for the grid whose upper right corner is `position`,
    /// with no scent yet.
    pub fn new(position: Coordinate) -> (r: Self)
        ensures
            r@.bounds == position@,
            r@.scents == Seq::<(int, int)>::empty(),
    {
        let r = Self { bounding_box: BoundingBox::from(position), scents: Vec::new() };
        assert(r@.scents =~= Seq::<(int, int)>::empty());
        r
    }

    pub fn is_inside(&self, coordinate: &Coordinate) -> (r: bool)
        ensures
            r == within(self@.bounds, coordinate@),
    {
        let (x, y) = coordinate.tuple();
        self.bounding_box.is_inside(x, y)
    }

    pub fn has_scent(&self, coordinate: &Coordinate) -> (r: bool)
        ensures
            r == self@.scents.contains(coordinate@),
    {
        let mut i: usize = 0;
        while i < self.scents.len()
            invariant
                i <= self.scents@.len(),
                forall|j: int| 0 <= j < i ==> self.scents@[j]@ != coordinate@,
            decreases self.scents@.len() - i,
        {
            let s = self.scents[i];
            if s.x() == coordinate.x() && s.y() == coordinate.y() {
                assert(self@.scents[i as int] == coordinate@);
                return true;
            }
            i = i + 1;
        }
        assert(!self@.scents.contains(coordinate@)) by {
            if self@.scents.contains(coordinate@) {
                let j = choose|j: int| 0 <= j < self@.scents.len() && self@.scents[j] == coordinate@;
                assert(self.scents@[j]@ == coordinate@);
            }
        }
        false
    }

    pub fn leave_scent(&mut self, position: &Coordinate)
        ensures
            final(self)@.bounds == old(self)@.bounds,
            final(self)@.scents == old(self)@.scents.push(position@),
    {
        self.scents.push(*position);
        assert(self@.scents =~= old(self)@.scents.push(position@));
    }
}

} // verus!
