use vstd::prelude::*;

use crate::bounding_box::within;
use crate::coordinate::Coordinate;
use crate::houston::{Houston, HoustonView};
use crate::instruction::Instruction;
use crate::orientation::{left_of, letter_of, right_of, Orientation};
use crate::text::{push_signed, signed_decimal};

verus! {

/// A rover's state: where it stands, where it faces, and whether it is lost.
pub struct RoverView {
    pub position: (int, int),
    pub orientation: Orientation,
    pub lost: bool,
}

/// The unit move for a heading.
pub open spec fn step_of(o: Orientation) -> (int, int) {
    match o {
        Orientation::North => (0, 1),
        Orientation::East => (1, 0),
        Orientation::South => (0, -1),
        Orientation::West => (-1, 0),
    }
}

/// The cell in front of a rover.
pub open spec fn ahead(r: RoverView) -> (int, int) {
    (r.position.0 + step_of(r.orientation).0, r.position.1 + step_of(r.orientation).1)
}

/// Whether `p` is a coordinate that an `i64` holds.
pub open spec fn fits_i64(p: (int, int)) -> bool {
    i64::MIN <= p.0 <= i64::MAX && i64::MIN <= p.1 <= i64::MAX
}

/// A rover that is lost, or whose cell ahead is representable, can try to move.
pub open spec fn can_advance(r: RoverView) -> bool {
    r.lost || fits_i64(ahead(r))
}

/// The effect of one forward move on the rover and on mission control.
pub open spec fn forward_spec(r: RoverView, h: HoustonView) -> (RoverView, HoustonView) {
    if r.lost {
        (r, h)
    } else if h.scents.contains(ahead(r)) {
        (r, h)
    } else if within(h.bounds, ahead(r)) {
        (RoverView { position: ahead(r), ..r }, h)
    } else {
        (RoverView { lost: true, ..r }, HoustonView { scents: h.scents.push(ahead(r)), ..h })
    }
}

/// The effect of one instruction.
pub open spec fn execute_spec(r: RoverView, h: HoustonView, i: Instruction) -> (RoverView, HoustonView) {
    match i {
        Instruction::Left => (RoverView { orientation: left_of(r.orientation), ..r }, h),
        Instruction::Right => (RoverView { orientation: right_of(r.orientation), ..r }, h),
        Instruction::Forward => forward_spec(r, h),
    }
}

/// The effect of a sequence of instructions, carried out in order.
pub open spec fn run_spec(r: RoverView, h: HoustonView, program: Seq<Instruction>) -> (RoverView, HoustonView)
    decreases program.len(),
{
    if program.len() == 0 {
        (r, h)
    } else {
        let (r1, h1) = run_spec(r, h, program.drop_last());
        execute_spec(r1, h1, program.last())
    }
}

/// The report line for a rover: `x y H`, with ` LOST` after it when the
/// rover is lost.
pub open spec fn report_of(r: RoverView) -> Seq<char> {
    let line = signed_decimal(r.position.0) + seq![' '] + signed_decimal(r.position.1) + seq![' ', letter_of(r.orientation)];
    if r.lost {
        line + seq![' ', 'L', 'O', 'S', 'T']
    } else {
        line
    }
}

/// A rover whose coordinates stay `n` cells clear of the limits of `i64`.
pub open spec fn clear_of_limits(r: RoverView, n: int) -> bool {
    i64::MIN + n <= r.position.0 <= i64::MAX - n && i64::MIN + n <= r.position.1 <= i64::MAX - n
}

/// One instruction moves a rover by at most one cell along each axis and
/// never touches the grid's bounds.
pub proof fn lemma_execute_moves_at_most_one(r: RoverView, h: HoustonView, i: Instruction)
    ensures
        ({
            let (r1, h1) = execute_spec(r, h, i);
            &&& r.position.0 - 1 <= r1.position.0 <= r.position.0 + 1
            &&& r.position.1 - 1 <= r1.position.1 <= r.position.1 + 1
            &&& h1.bounds == h.bounds
        }),
{
}

/// A lost rover stays lost: no forward move changes it, and whatever
/// program it carries out afterwards, it is still lost and still where it was.
pub proof fn lemma_lost_is_final(r: RoverView, h: HoustonView, program: Seq<Instruction>)
    requires
        r.lost,
    ensures
        forward_spec(r, h) == (r, h),
        run_spec(r, h, program).0.lost,
        run_spec(r, h, program).0.position == r.position,
    decreases program.len(),
{
    if program.len() > 0 {
        lemma_lost_is_final(r, h, program.drop_last());
    }
}

/// A rover whose cell ahead bears a scent does not move, is not lost, and
/// leaves mission control as it was.
pub proof fn lemma_scent_blocks(r: RoverView, h: HoustonView)
    requires
        h.scents.contains(ahead(r)),
    ensures
        forward_spec(r, h) == (r, h),
{
}

/// Scents are never taken away: whatever program a rover carries out, the
/// scents that were there before are still there, first and in order, and
/// the grid's bounds do not change.
pub proof fn lemma_scents_persist(r: RoverView, h: HoustonView, program: Seq<Instruction>)
    ensures
        run_spec(r, h, program).1.bounds == h.bounds,
        h.scents.len() <= run_spec(r, h, program).1.scents.len(),
        run_spec(r, h, program).1.scents.take(h.scents.len() as int) == h.scents,
    decreases program.len(),
{
    if program.len() > 0 {
        lemma_scents_persist(r, h, program.drop_last());
        let (r1, h1) = run_spec(r, h, program.drop_last());
        let h2 = execute_spec(r1, h1, program.last()).1;
        if h2.scents != h1.scents {
            assert(h2.scents.take(h.scents.len() as int) =~= h1.scents.take(h.scents.len() as int));
        }
    }
}

/// A scent left before one rover carries out its program still blocks any
/// other rover whose cell ahead it marks, after that program has run.
pub proof fn lemma_scent_shared(
    first: RoverView,
    h: HoustonView,
    program: Seq<Instruction>,
    second: RoverView,
)
    requires
        h.scents.contains(ahead(second)),
    ensures
        forward_spec(second, run_spec(first, h, program).1) == (second, run_spec(first, h, program).1),
{
    lemma_scents_persist(first, h, program);
    let after = run_spec(first, h, program).1;
    let k = choose|k: int| 0 <= k < h.scents.len() && h.scents[k] == ahead(second);
    assert(after.scents.take(h.scents.len() as int)[k] == ahead(second));
    assert(after.scents[k] == ahead(second));
}

/// A rover on the grid of mars.
#[derive(Debug)]
pub struct Rover {
    position: Coordinate,
    orientation: Orientation,
    lost: bool,
}

impl View for Rover {
    type V = RoverView;

    closed spec fn view(&self) -> RoverView {
        RoverView { position: self.position@, orientation: self.orientation, lost: self.lost }
    }
}

impl Rover {
    pub fn new(position: Coordinate, orientation: Orientation) -> (r: Self)
        ensures
            r@ == (RoverView { position: position@, orientation, lost: false }),
    {
        Self { position, orientation, lost: false }
    }

    /// Turns a quarter to the left; a lost rover turns too.
    pub fn turn_left(&mut self) -> (r: &mut Self)
        ensures
            r@ == (RoverView { orientation: left_of(old(self)@.orientation), ..old(self)@ }),
            final(self)@ == final(r)@,
    {
        self.orientation = self.orientation.turn_left();
        self
    }

    /// Turns a quarter to the right; a lost rover turns too.
    pub fn turn_right(&mut self) -> (r: &mut Self)
        ensures
            r@ == (RoverView { orientation: right_of(old(self)@.orientation), ..old(self)@ }),
            final(self)@ == final(r)@,
    {
        self.orientation = self.orientation.turn_right();
        self
    }

    /// Moves one cell ahead, unless the rover is lost or a scent marks that
    /// cell; a move off the grid loses the rover and leaves a scent there.
    pub fn forward(&mut self, context: &mut Houston) -> (r: &mut Self)
        requires
            can_advance(old(self)@),
        ensures
            (r@, final(context)@) == forward_spec(old(self)@, old(context)@),
            final(self)@ == final(r)@,
    {
        if !self.lost {
            let (x, y) = self.position.tuple();
            let (new_x, new_y): (i64, i64) = match self.orientation {
                Orientation::North => (0, 1),
                Orientation::East => (1, 0),
                Orientation::South => (0, -1),
                Orientation::West => (-1, 0),
            };
            let position = Coordinate::new(x + new_x, y + new_y);
            if !context.has_scent(&position) {
                if context.is_inside(&position) {
                    self.position = position;
                } else {
                    self.lost = true;
                    // leave a scent so that other rovers do not suffer the same fate
                    context.leave_scent(&position);
                }
            }
        }
        self
    }

    pub fn execute_instruction(&mut self, houston: &mut Houston, instruction: Instruction) -> (r: &mut Rover)
        requires
            instruction == Instruction::Forward ==> can_advance(old(self)@),
        ensures
            (r@, final(houston)@) == execute_spec(old(self)@, old(houston)@, instruction),
            final(self)@ == final(r)@,
    {
        match instruction {
            Instruction::Left => self.turn_left(),
            Instruction::Right => self.turn_right(),
            Instruction::Forward => self.forward(houston),
        };
        self
    }

    /// Carries out `instructions` in order.
    pub fn execute_instructions(&mut self, houston: &mut Houston, instructions: &Vec<Instruction>)
        requires
            clear_of_limits(old(self)@, instructions@.len() as int),
        ensures
            (final(self)@, final(houston)@) == run_spec(old(self)@, old(houston)@, instructions@),
    {
        let mut i: usize = 0;
        while i < instructions.len()
            invariant
                0 <= i <= instructions@.len(),
                clear_of_limits(old(self)@, instructions@.len() as int),
                (self@, houston@) == run_spec(old(self)@, old(houston)@, instructions@.take(i as int)),
                clear_of_limits(self@, instructions@.len() - i),
            decreases instructions@.len() - i,
        {
            proof {
                lemma_execute_moves_at_most_one(self@, houston@, instructions@[i as int]);
                assert(instructions@.take(i + 1).drop_last() =~= instructions@.take(i as int));
            }
            self.execute_instruction(houston, instructions[i]);
            i = i + 1;
        }
        assert(instructions@.take(i as int) =~= instructions@);
    }

    pub fn position(&self) -> (r: Coordinate)
        ensures
            r@ == self@.position,
    {
        self.position
    }

    pub fn orientation(&self) -> (r: &Orientation)
        ensures
            *r == self@.orientation,
    {
        &self.orientation
    }

    /// The rover's final report line.
    pub fn report(&self) -> (r: String)
        ensures
            r@ == report_of(self@),
    {
        let mut r = String::new();
        push_signed(&mut r, self.position.x());
        r.append(" ");
        push_signed(&mut r, self.position.y());
        r.append(" ");
        let letter = self.orientation.letter();
        r.append(letter.as_str());
        if self.lost {
            r.append(" LOST");
        }
        proof {
            reveal_strlit(" ");
            reveal_strlit(" LOST");
            assert(r@ =~= report_of(self@));
        }
        r
    }

    pub fn is_lost(&self) -> (r: bool)
        ensures
            r == self@.lost,
    {
        self.lost
    }
}

} // verus!
