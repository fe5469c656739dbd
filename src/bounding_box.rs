use vstd::prelude::*;

use crate::coordinate::Coordinate;

verus! {

/// Whether `p` lies inside the rectangle whose upper right corner is `max`.
/// Only the upper bounds are checked: the lower corner is left to the callers.
pub open spec fn within(max: (int, int), p: (int, int)) -> bool {
    p.0 <= max.0 && p.1 <= max.1
}

/// The grid's extent; its view is the upper right corner `(max_x, max_y)`.
#[derive(Clone, Copy, Debug, PartialEq, Eq, Structural)]
pub struct BoundingBox {
    max_x: i64,
    max_y: i64,
}

impl View for BoundingBox {
    type V = (int, int);

    closed spec fn view(&self) -> (int, int) {
        (self.max_x as int, self.max_y as int)
    }
}

impl BoundingBox {
    pub fn new(max_x: i64, max_y: i64) -> (r: Self)
        ensures
            r@ == (max_x as int, max_y as int),
    {
        Self { max_x, max_y }
    }

    pub fn is_inside(&self, x: i64, y: i64) -> (r: bool)
        ensures
            r == within(self@, (x as int, y as int)),
    {
        x <= self.max_x && y <= self.max_y
    }
}

impl From<Coordinate> for BoundingBox {
    fn from(coordinate: Coordinate) -> (r: Self)
        ensures
            r@ == coordinate@,
    {
        let (x, y) = coordinate.tuple();
        BoundingBox::new(x, y)
    }
}

impl vstd::std_specs::convert::FromSpecImpl<Coordinate> for BoundingBox {
    open spec fn obeys_from_spec() -> bool {
        true
    }

    closed spec fn from_spec(coordinate: Coordinate) -> BoundingBox {
        BoundingBox { max_x: coordinate@.0 as i64, max_y: coordinate@.1 as i64 }
    }
}

} // verus!
