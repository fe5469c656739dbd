use vstd::prelude::*;
use vstd::string::StringSliceAdditionalSpecFns;

use crate::coordinate::Coordinate;
use crate::error::{ApplicationError, ApplicationErrorKind};
use crate::houston::Houston;
use crate::instruction::Instruction;
use crate::orientation::Orientation;
use crate::rover::{Rover, RoverView};

verus! {

/// What one rover block of a script says: the start cell, the heading, and
/// the program.
pub type Block = ((int, int), Orientation, Seq<Instruction>);

/// The most instructions one rover block holds.
pub const MAX_INSTRUCTIONS: usize = 100;

/// The largest value a coordinate of a script may have.
pub const MAX_COORDINATE: u64 = 50;

pub open spec fn is_space(b: u8) -> bool {
    b == 0x20 || b == 0x09
}

pub open spec fn is_digit(b: u8) -> bool {
    0x30 <= b <= 0x39
}

pub open spec fn is_newline(b: u8) -> bool {
    b == 0x0a
}

pub open spec fn is_instruction(b: u8) -> bool {
    b == 0x4c || b == 0x52 || b == 0x46
}

/// Where the run of spaces and tabs that starts at `i` ends.
pub open spec fn spaces_end(s: Seq<u8>, i: int) -> int
    decreases s.len() - i,
{
    if 0 <= i < s.len() && is_space(s[i]) {
        spaces_end(s, i + 1)
    } else {
        i
    }
}

/// Where the run of decimal digits that starts at `i` ends.
pub open spec fn digits_end(s: Seq<u8>, i: int) -> int
    decreases s.len() - i,
{
    if 0 <= i < s.len() && is_digit(s[i]) {
        digits_end(s, i + 1)
    } else {
        i
    }
}

/// Where the run of line feeds that starts at `i` ends.
pub open spec fn newlines_end(s: Seq<u8>, i: int) -> int
    decreases s.len() - i,
{
    if 0 <= i < s.len() && is_newline(s[i]) {
        newlines_end(s, i + 1)
    } else {
        i
    }
}

/// Where the run of instruction letters that starts at `i` ends.
pub open spec fn letters_end(s: Seq<u8>, i: int) -> int
    decreases s.len() - i,
{
    if 0 <= i < s.len() && is_instruction(s[i]) {
        letters_end(s, i + 1)
    } else {
        i
    }
}

/// The value of a sequence of decimal digits.
pub open spec fn decimal_value(d: Seq<u8>) -> nat
    decreases d.len(),
{
    if d.len() == 0 {
        0
    } else {
        decimal_value(d.drop_last()) * 10 + (d.last() - 0x30) as nat
    }
}

/// A number at `i`: at least one digit; its value and where it ends.
pub open spec fn number_at(s: Seq<u8>, i: int) -> Option<(nat, int)> {
    let e = digits_end(s, i);
    if e == i {
        None
    } else {
        Some((decimal_value(s.subrange(i, e)), e))
    }
}

/// A coordinate at `i`: two numbers apart by spaces or tabs, each of them
/// at most fifty; the pair and where it ends.
pub open spec fn coordinate_at(s: Seq<u8>, i: int) -> Option<((int, int), int)> {
    match number_at(s, i) {
        None => None,
        Some((x, j)) => match number_at(s, spaces_end(s, j)) {
            None => None,
            Some((y, k)) => if x <= 50 && y <= 50 {
                Some(((x as int, y as int), k))
            } else {
                None
            },
        },
    }
}

/// The heading a letter names.
pub open spec fn heading_of(b: u8) -> Option<Orientation> {
    if b == 0x4e {
        Some(Orientation::North)
    } else if b == 0x45 {
        Some(Orientation::East)
    } else if b == 0x53 {
        Some(Orientation::South)
    } else if b == 0x57 {
        Some(Orientation::West)
    } else {
        None
    }
}

/// The instruction a letter names (one of `L`, `R`, `F`).
pub open spec fn instruction_of(b: u8) -> Instruction {
    if b == 0x4c {
        Instruction::Left
    } else if b == 0x52 {
        Instruction::Right
    } else {
        Instruction::Forward
    }
}

/// Where a program that starts at `i` ends: at the first byte that is no
/// instruction letter, or after a hundred letters.
pub open spec fn program_end(s: Seq<u8>, i: int) -> int {
    let e = letters_end(s, i);
    if e <= i + 100 {
        e
    } else {
        i + 100
    }
}

/// A rover block at `i`: a coordinate, spaces or tabs, a heading letter, a
/// line feed, a program, and any number of line feeds; the block and where
/// it ends.
pub open spec fn block_at(s: Seq<u8>, i: int) -> Option<(Block, int)> {
    match coordinate_at(s, i) {
        None => None,
        Some((c, j)) => {
            let k = spaces_end(s, j);
            if 0 <= k < s.len() && heading_of(s[k]) is Some && k + 1 < s.len() && is_newline(s[k + 1]) {
                let e = program_end(s, k + 2);
                let program = s.subrange(k + 2, e).map_values(|b: u8| instruction_of(b));
                Some(((c, heading_of(s[k])->0, program), newlines_end(s, e)))
            } else {
                None
            }
        },
    }
}

/// Every run ends at or after where it starts, and within the text.
pub proof fn lemma_ends(s: Seq<u8>, i: int)
    requires
        0 <= i <= s.len(),
    ensures
        i <= spaces_end(s, i) <= s.len(),
        i <= digits_end(s, i) <= s.len(),
        i <= newlines_end(s, i) <= s.len(),
        i <= letters_end(s, i) <= s.len(),
    decreases s.len() - i,
{
    if i < s.len() {
        lemma_ends(s, i + 1);
    }
}

/// A block ends after where it starts, and within the text.
pub proof fn lemma_block_advances(s: Seq<u8>, i: int)
    requires
        0 <= i <= s.len(),
        block_at(s, i) is Some,
    ensures
        i < (block_at(s, i)->0).1 <= s.len(),
{
    lemma_ends(s, i);
    let j = digits_end(s, i);
    lemma_ends(s, j);
    let j2 = spaces_end(s, j);
    lemma_ends(s, j2);
    let k0 = digits_end(s, j2);
    lemma_ends(s, k0);
    let k = spaces_end(s, k0);
    lemma_ends(s, k + 2);
    let e = program_end(s, k + 2);
    lemma_ends(s, e);
}

/// A block's start cell lies within fifty along each axis, and its program
/// holds at most a hundred instructions.
pub open spec fn block_is_small(b: Block) -> bool {
    &&& 0 <= b.0.0 <= 50
    &&& 0 <= b.0.1 <= 50
    &&& b.2.len() <= 100
}

#[via_fn]
proof fn blocks_from_decreases(s: Seq<u8>, i: int) {
    if 0 <= i <= s.len() && block_at(s, i) is Some {
        lemma_block_advances(s, i);
    }
}

/// The rover blocks that follow one another from `i` on, as many as parse.
pub open spec fn blocks_from(s: Seq<u8>, i: int) -> Seq<Block>
    decreases s.len() - i
    via blocks_from_decreases
{
    if 0 <= i <= s.len() && block_at(s, i) is Some {
        let (b, j) = block_at(s, i)->0;
        seq![b] + blocks_from(s, j)
    } else {
        Seq::empty()
    }
}

/// Every block that parses is small.
pub proof fn lemma_blocks_small(s: Seq<u8>, i: int)
    ensures
        forall|k: int| 0 <= k < blocks_from(s, i).len() ==> block_is_small(#[trigger] blocks_from(s, i)[k]),
    decreases s.len() - i,
{
    if 0 <= i <= s.len() && block_at(s, i) is Some {
        lemma_block_advances(s, i);
        let (b, j) = block_at(s, i)->0;
        lemma_blocks_small(s, j);
        let (c, j0) = coordinate_at(s, i)->0;
        let k0 = spaces_end(s, j0);
        lemma_coordinate_advances(s, i);
        lemma_ends(s, j0);
        lemma_ends(s, k0 + 2);
        assert(block_is_small(b));
        assert(blocks_from(s, i) == seq![b] + blocks_from(s, j));
        assert forall|k: int| 0 <= k < blocks_from(s, i).len() implies block_is_small(#[trigger] blocks_from(s, i)[k]) by {
            if k > 0 {
                assert(blocks_from(s, i)[k] == blocks_from(s, j)[k - 1]);
            }
        }
    }
}

/// A whole script: the grid's corner on the first line, then at least one
/// rover block. What follows the last block that parses is not read.
pub open spec fn script_of(s: Seq<u8>) -> Option<((int, int), Seq<Block>)> {
    match coordinate_at(s, 0) {
        None => None,
        Some((c, j)) => if 0 <= j < s.len() && is_newline(s[j]) && blocks_from(s, j + 1).len() > 0 {
            Some((c, blocks_from(s, j + 1)))
        } else {
            None
        },
    }
}

/// A parsed rover with its program stands for the block.
pub open spec fn stands_for(e: (Rover, Vec<Instruction>), b: Block) -> bool {
    &&& e.0@ == RoverView { position: b.0, orientation: b.1, lost: false }
    &&& e.1@ == b.2
}

/// The parsed rovers stand, in order, for the blocks.
pub open spec fn all_stand_for(rs: Seq<(Rover, Vec<Instruction>)>, bs: Seq<Block>) -> bool {
    &&& rs.len() == bs.len()
    &&& forall|k: int| 0 <= k < rs.len() ==> stands_for(#[trigger] rs[k], bs[k])
}

fn skip_spaces(s: &[u8], start: usize) -> (r: usize)
    requires
        start <= s@.len(),
    ensures
        r == spaces_end(s@, start as int),
{
    let mut i = start;
    while i < s.len() && (s[i] == 0x20 || s[i] == 0x09)
        invariant
            start <= i <= s@.len(),
            spaces_end(s@, i as int) == spaces_end(s@, start as int),
        decreases s@.len() - i,
    {
        i = i + 1;
    }
    i
}

fn skip_newlines(s: &[u8], start: usize) -> (r: usize)
    requires
        start <= s@.len(),
    ensures
        r == newlines_end(s@, start as int),
{
    let mut i = start;
    while i < s.len() && s[i] == 0x0a
        invariant
            start <= i <= s@.len(),
            newlines_end(s@, i as int) == newlines_end(s@, start as int),
        decreases s@.len() - i,
    {
        i = i + 1;
    }
    i
}

/// Reads the number at `start`. The value is given up to fifty-one: all
/// that lies above fifty is out of range alike.
pub fn number(s: &[u8], start: usize) -> (r: Option<(u64, usize)>)
    requires
        start <= s@.len(),
    ensures
        match number_at(s@, start as int) {
            None => r is None,
            Some((v, e)) => r matches Some((w, f)) && f == e && w as int == (if v <= 50 { v as int } else { 51 }),
        },
{
    let mut i = start;
    let mut value: u64 = 0;
    while i < s.len() && 0x30 <= s[i] && s[i] <= 0x39
        invariant
            start <= i <= s@.len(),
            digits_end(s@, i as int) == digits_end(s@, start as int),
            value as int == (if decimal_value(s@.subrange(start as int, i as int)) <= 50 {
                decimal_value(s@.subrange(start as int, i as int)) as int
            } else {
                51
            }),
        decreases s@.len() - i,
    {
        assert(s@.subrange(start as int, i + 1).drop_last() =~= s@.subrange(start as int, i as int));
        let digit = (s[i] - 0x30) as u64;
        if value <= 50 {
            value = value * 10 + digit;
            if value > 50 {
                value = 51;
            }
        }
        i = i + 1;
    }
    if i == start {
        None
    } else {
        Some((value, i))
    }
}

pub fn coordinate(s: &[u8], start: usize) -> (r: Option<(Coordinate, usize)>)
    requires
        start <= s@.len(),
    ensures
        match coordinate_at(s@, start as int) {
            None => r is None,
            Some((c, e)) => r matches Some((w, f)) && w@ == c && f == e,
        },
{
    let (x, j) = match number(s, start) {
        None => {
            return None;
        },
        Some(p) => p,
    };
    proof {
        lemma_ends(s@, start as int);
    }
    let k = skip_spaces(s, j);
    proof {
        lemma_ends(s@, j as int);
    }
    let (y, e) = match number(s, k) {
        None => {
            return None;
        },
        Some(p) => p,
    };
    if x <= MAX_COORDINATE && y <= MAX_COORDINATE {
        Some((Coordinate::new(x as i64, y as i64), e))
    } else {
        None
    }
}

pub fn orientation(s: &[u8], at: usize) -> (r: Option<Orientation>)
    requires
        at < s@.len(),
    ensures
        r == heading_of(s@[at as int]),
{
    let b = s[at];
    if b == 0x4e {
        Some(Orientation::North)
    } else if b == 0x45 {
        Some(Orientation::East)
    } else if b == 0x53 {
        Some(Orientation::South)
    } else if b == 0x57 {
        Some(Orientation::West)
    } else {
        None
    }
}

pub fn instruction(b: u8) -> (r: Option<Instruction>)
    ensures
        is_instruction(b) ==> r == Some(instruction_of(b)),
        !is_instruction(b) ==> r is None,
{
    if b == 0x4c {
        Some(Instruction::Left)
    } else if b == 0x52 {
        Some(Instruction::Right)
    } else if b == 0x46 {
        Some(Instruction::Forward)
    } else {
        None
    }
}

/// Reads up to a hundred instruction letters from `start` on.
pub fn instructions(s: &[u8], start: usize) -> (r: (Vec<Instruction>, usize))
    requires
        start <= s@.len(),
    ensures
        r.1 == program_end(s@, start as int),
        r.0@ == s@.subrange(start as int, r.1 as int).map_values(|b: u8| instruction_of(b)),
{
    let mut program: Vec<Instruction> = Vec::new();
    let mut i = start;
    proof {
        lemma_ends(s@, start as int);
        assert(s@.subrange(start as int, start as int).map_values(|b: u8| instruction_of(b)) =~= program@);
    }
    while i < s.len() && i - start < MAX_INSTRUCTIONS
        invariant
            start <= i <= s@.len(),
            i - start <= MAX_INSTRUCTIONS,
            letters_end(s@, i as int) == letters_end(s@, start as int),
            i <= letters_end(s@, start as int),
            program@ == s@.subrange(start as int, i as int).map_values(|b: u8| instruction_of(b)),
        ensures
            i == program_end(s@, start as int),
            program@ == s@.subrange(start as int, i as int).map_values(|b: u8| instruction_of(b)),
        decreases s@.len() - i,
    {
        proof {
            lemma_ends(s@, i as int);
        }
        match instruction(s[i]) {
            None => {
                break;
            },
            Some(step) => {
                program.push(step);
                i = i + 1;
                proof {
                    lemma_ends(s@, i as int);
                }
                assert(program@ =~= s@.subrange(start as int, i as int).map_values(|b: u8| instruction_of(b)));
            },
        }
    }
    (program, i)
}

fn block(s: &[u8], start: usize) -> (r: Option<(Rover, Vec<Instruction>, usize)>)
    requires
        start <= s@.len(),
    ensures
        match block_at(s@, start as int) {
            None => r is None,
            Some((b, e)) => r matches Some((rover, program, f)) && stands_for((rover, program), b) && f == e,
        },
{
    let (c, j) = match coordinate(s, start) {
        None => {
            return None;
        },
        Some(p) => p,
    };
    proof {
        lemma_coordinate_advances(s@, start as int);
    }
    let k = skip_spaces(s, j);
    if k >= s.len() {
        return None;
    }
    let heading = match orientation(s, k) {
        None => {
            return None;
        },
        Some(o) => o,
    };
    if k + 1 >= s.len() || s[k + 1] != 0x0a {
        return None;
    }
    let (program, e) = instructions(s, k + 2);
    proof {
        lemma_ends(s@, k + 2);
        lemma_ends(s@, e as int);
    }
    let f = skip_newlines(s, e);
    Some((Rover::new(c, heading), program, f))
}

/// A coordinate ends after where it starts, and within the text.
proof fn lemma_coordinate_advances(s: Seq<u8>, i: int)
    requires
        0 <= i <= s.len(),
        coordinate_at(s, i) is Some,
    ensures
        i < (coordinate_at(s, i)->0).1 <= s.len(),
{
    lemma_ends(s, i);
    let j = digits_end(s, i);
    lemma_ends(s, j);
    let j2 = spaces_end(s, j);
    lemma_ends(s, j2);
}

/// Reads as many rover blocks as follow one another from `start` on.
fn rovers(s: &[u8], start: usize) -> (r: Vec<(Rover, Vec<Instruction>)>)
    requires
        start <= s@.len(),
    ensures
        all_stand_for(r@, blocks_from(s@, start as int)),
{
    let mut out: Vec<(Rover, Vec<Instruction>)> = Vec::new();
    let mut i = start;
    let ghost mut taken: Seq<Block> = Seq::empty();
    loop
        invariant
            start <= i <= s@.len(),
            blocks_from(s@, start as int) == taken + blocks_from(s@, i as int),
            all_stand_for(out@, taken),
        ensures
            all_stand_for(out@, blocks_from(s@, start as int)),
        decreases s@.len() - i,
    {
        match block(s, i) {
            None => {
                assert(taken + blocks_from(s@, i as int) =~= taken);
                break;
            },
            Some((rover, program, next)) => {
                proof {
                    lemma_block_advances(s@, i as int);
                    let b = (block_at(s@, i as int)->0).0;
                    assert(taken + blocks_from(s@, i as int) =~= taken.push(b) + blocks_from(s@, next as int));
                    taken = taken.push(b);
                }
                out.push((rover, program));
                i = next;
            },
        }
    }
    out
}

/// Reads the script's first line: the grid's upper right corner and a line
/// feed. Gives mission control for that grid and where the line ends.
pub fn houston(s: &[u8]) -> (r: Option<(Houston, usize)>)
    ensures
        match coordinate_at(s@, 0) {
            Some((c, j)) if 0 <= j < s@.len() && is_newline(s@[j]) => r matches Some((h, e))
                && h@.bounds == c && h@.scents.len() == 0 && e == j + 1,
            _ => r is None,
        },
{
    let (corner, j) = match coordinate(s, 0) {
        None => {
            return None;
        },
        Some(p) => p,
    };
    proof {
        lemma_coordinate_advances(s@, 0);
    }
    if j >= s.len() || s[j] != 0x0a {
        return None;
    }
    Some((Houston::new(corner), j + 1))
}

/// Reads a mission script: the grid's upper right corner, then rover
/// blocks, at least one.
pub fn parse(input: &str) -> (r: Result<(Houston, Vec<(Rover, Vec<Instruction>)>), ApplicationError>)
    ensures
        r is Ok <==> script_of(input.spec_bytes()) is Some,
        r matches Ok((houston, rovers)) ==> {
            let (corner, blocks) = script_of(input.spec_bytes())->0;
            &&& houston@.bounds == corner
            &&& houston@.scents.len() == 0
            &&& all_stand_for(rovers@, blocks)
        },
        r matches Err(e) ==> e@.kind == ApplicationErrorKind::Input,
{
    let s = input.as_bytes();
    let (houston, j) = match houston(s) {
        None => {
            return Err(ApplicationError::input("Unable to parse input: expected the grid's upper right corner and a line feed"));
        },
        Some(p) => p,
    };
    let rovers = rovers(s, j);
    if rovers.len() == 0 {
        return Err(ApplicationError::input("Unable to parse input: expected at least one rover"));
    }
    Ok((houston, rovers))
}

} // verus!
