use vstd::prelude::*;

use crate::text::{push_signed, signed_decimal};

verus! {

/// A point of the grid. Its view is the pair `(x, y)` as mathematical integers.
#[derive(Clone, Copy, Debug, PartialEq, Eq, Structural, Hash)]
pub struct Coordinate {
    x: i64,
    y: i64,
}

impl View for Coordinate {
    type V = (int, int);

    closed spec fn view(&self) -> (int, int) {
        (self.x as int, self.y as int)
    }
}

impl Coordinate {
    /// Creates a new coordinate for the given x and y values.
    pub fn new(x: i64, y: i64) -> (r: Self)
        ensures
            r@ == (x as int, y as int),
    {
        Self { x, y }
    }

    /// Returns the x value of this coordinate.
    pub fn x(self) -> (r: i64)
        ensures
            r as int == self@.0,
    {
        self.x
    }

    /// Returns the y value of this coordinate.
    pub fn y(self) -> (r: i64)
        ensures
            r as int == self@.1,
    {
        self.y
    }

    pub fn tuple(self) -> (r: (i64, i64))
        ensures
            r.0 as int == self@.0,
            r.1 as int == self@.1,
    {
        (self.x, self.y)
    }

    /// The coordinate as text, `(x, y)`.
    pub fn render(&self) -> (r: String)
        ensures
            r@ == seq!['('] + signed_decimal(self@.0) + seq![',', ' '] + signed_decimal(self@.1) + seq![')'],
    {
        let mut r = String::new();
        r.append("(");
        push_signed(&mut r, self.x);
        r.append(", ");
        push_signed(&mut r, self.y);
        r.append(")");
        proof {
            reveal_strlit("(");
            reveal_strlit(", ");
            reveal_strlit(")");
            assert(r@ =~= seq!['('] + signed_decimal(self@.0) + seq![',', ' '] + signed_decimal(self@.1) + seq![')']);
        }
        r
    }
}

} // verus!
