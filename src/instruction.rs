use vstd::prelude::*;

verus! {

/// One step of a rover's program.
#[derive(Clone, Copy, Debug, PartialEq, Eq, Structural)]
pub enum Instruction {
    Left,
    Right,
    Forward,
}

/// The word that names an instruction.
pub open spec fn instruction_name(i: Instruction) -> Seq<char> {
    match i {
        Instruction::Left => seq!['L', 'e', 'f', 't'],
        Instruction::Right => seq!['R', 'i', 'g', 'h', 't'],
        Instruction::Forward => seq!['F', 'o', 'r', 'w', 'a', 'r', 'd'],
    }
}

impl Instruction {
    /// The word that names this instruction.
    pub fn name(&self) -> (r: String)
        ensures
            r@ == instruction_name(*self),
    {
        let r = match self {
            Self::Left => String::from_str("Left"),
            Self::Right => String::from_str("Right"),
            Self::Forward => String::from_str("Forward"),
        };
        proof {
            reveal_strlit("Left");
            reveal_strlit("Right");
            reveal_strlit("Forward");
        }
        r
    }
}

} // verus!
