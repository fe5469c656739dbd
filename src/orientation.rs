use vstd::prelude::*;

verus! {

/// One of the four compass headings.
#[derive(Clone, Copy, Debug, PartialEq, Eq, Structural)]
pub enum Orientation {
    North,
    East,
    South,
    West,
}

/// The heading after a quarter turn counter-clockwise.
pub open spec fn left_of(o: Orientation) -> Orientation {
    match o {
        Orientation::North => Orientation::West,
        Orientation::East => Orientation::North,
        Orientation::South => Orientation::East,
        Orientation::West => Orientation::South,
    }
}

/// The heading after a quarter turn clockwise.
pub open spec fn right_of(o: Orientation) -> Orientation {
    match o {
        Orientation::North => Orientation::East,
        Orientation::East => Orientation::South,
        Orientation::South => Orientation::West,
        Orientation::West => Orientation::North,
    }
}

/// The single letter that names a heading.
pub open spec fn letter_of(o: Orientation) -> char {
    match o {
        Orientation::North => 'N',
        Orientation::East => 'E',
        Orientation::South => 'S',
        Orientation::West => 'W',
    }
}

/// Four left turns, or four right turns, lead back to the starting heading,
/// and a left turn and a right turn undo each other in either order.
pub proof fn lemma_rotation_cycle(o: Orientation)
    ensures
        left_of(left_of(left_of(left_of(o)))) == o,
        right_of(right_of(right_of(right_of(o)))) == o,
        right_of(left_of(o)) == o,
        left_of(right_of(o)) == o,
{
}

impl Orientation {
    pub fn turn_left(&self) -> (r: Self)
        ensures
            r == left_of(*self),
    {
        match self {
            Self::North => Self::West,
            Self::East => Self::North,
            Self::South => Self::East,
            Self::West => Self::South,
        }
    }

    /// The letter that names this heading, as text.
    pub fn letter(&self) -> (r: String)
        ensures
            r@ == seq![letter_of(*self)],
    {
        let r = match self {
            Self::North => String::from_str("N"),
            Self::East => String::from_str("E"),
            Self::South => String::from_str("S"),
            Self::West => String::from_str("W"),
        };
        proof {
            reveal_strlit("N");
            reveal_strlit("E");
            reveal_strlit("S");
            reveal_strlit("W");
        }
        r
    }

    pub fn turn_right(&self) -> (r: Self)
        ensures
            r == right_of(*self),
    {
        match self {
            Self::North => Self::East,
            Self::East => Self::South,
            Self::South => Self::West,
            Self::West => Self::North,
        }
    }
}

} // verus!
