use vstd::prelude::*;

use crate::houston::HoustonView;
use crate::instruction::Instruction;
use crate::mission::{mission_spec, script_reports, start_of};
use crate::orientation::Orientation;
use crate::rover::{report_of, run_spec, RoverView};
use crate::parser::{
    block_at, blocks_from, coordinate_at, decimal_value, digits_end, heading_of, instruction_of,
    is_digit, is_instruction, letters_end, newlines_end, number_at, program_end, script_of,
    spaces_end, Block,
};

verus! {

/// The decimal text of a number below a hundred.
pub open spec fn number_text(n: nat) -> Seq<u8> {
    if n < 10 {
        seq![(0x30 + n) as u8]
    } else {
        seq![(0x30 + n / 10) as u8, (0x30 + n % 10) as u8]
    }
}

/// The letter byte that names a heading.
pub open spec fn heading_byte(o: Orientation) -> u8 {
    match o {
        Orientation::North => 0x4e,
        Orientation::East => 0x45,
        Orientation::South => 0x53,
        Orientation::West => 0x57,
    }
}

/// The letter byte that names an instruction.
pub open spec fn instruction_byte(i: Instruction) -> u8 {
    match i {
        Instruction::Left => 0x4c,
        Instruction::Right => 0x52,
        Instruction::Forward => 0x46,
    }
}

/// A coordinate line's text: `x y`.
pub open spec fn coordinate_text(c: (nat, nat)) -> Seq<u8> {
    number_text(c.0) + seq![0x20u8] + number_text(c.1)
}

/// The text of a script with one rover: the grid's corner on the first line,
/// then `x y H` and the program on the next two.
pub open spec fn script_text(corner: (nat, nat), start: (nat, nat), heading: Orientation, program: Seq<Instruction>) -> Seq<u8> {
    coordinate_text(corner) + seq![0x0au8] + coordinate_text(start) + seq![0x20u8, heading_byte(heading), 0x0au8]
        + program.map_values(|i: Instruction| instruction_byte(i)) + seq![0x0au8]
}

proof fn lemma_number_in(s: Seq<u8>, i: int, n: nat)
    requires
        0 <= i,
        n < 100,
        i + number_text(n).len() <= s.len(),
        s.subrange(i, i + number_text(n).len()) == number_text(n),
        i + number_text(n).len() < s.len() ==> !is_digit(s[i + number_text(n).len()]),
    ensures
        number_at(s, i) == Some((n, i + number_text(n).len())),
{
    let l = number_text(n).len() as int;
    assert(s[i] == number_text(n)[0]);
    if n < 10 {
        assert(digits_end(s, i + 1) == i + 1);
        assert(digits_end(s, i) == i + 1);
        let d = s.subrange(i, i + 1);
        assert(d.drop_last() =~= Seq::<u8>::empty());
        assert(decimal_value(Seq::<u8>::empty()) == 0);
        assert(d.last() == s[i]);
        assert(decimal_value(d) == decimal_value(d.drop_last()) * 10 + (d.last() - 0x30) as nat);
        assert(decimal_value(d) == n);
    } else {
        assert(s[i + 1] == number_text(n)[1]);
        assert(digits_end(s, i + 2) == i + 2);
        assert(digits_end(s, i + 1) == i + 2);
        assert(digits_end(s, i) == i + 2);
        let d = s.subrange(i, i + 2);
        assert(d.drop_last() =~= seq![d[0]]);
        assert(seq![d[0]].drop_last() =~= Seq::<u8>::empty());
        assert(decimal_value(Seq::<u8>::empty()) == 0);
        assert(seq![d[0]].last() == s[i]);
        assert(decimal_value(seq![d[0]]) == decimal_value(seq![d[0]].drop_last()) * 10 + (seq![d[0]].last() - 0x30) as nat);
        assert(decimal_value(seq![d[0]]) == n / 10);
        assert(d.last() == s[i + 1]);
        assert(decimal_value(d) == decimal_value(d.drop_last()) * 10 + (d.last() - 0x30) as nat);
        assert(decimal_value(d) == n);
    }
}

proof fn lemma_coordinate_in(s: Seq<u8>, i: int, c: (nat, nat))
    requires
        0 <= i,
        c.0 <= 50 && c.1 <= 50,
        i + coordinate_text(c).len() < s.len(),
        s.subrange(i, i + coordinate_text(c).len()) == coordinate_text(c),
        !is_digit(s[i + coordinate_text(c).len()]),
    ensures
        coordinate_at(s, i) == Some(((c.0 as int, c.1 as int), i + coordinate_text(c).len())),
{
    let a = i + number_text(c.0).len();
    let b = a + 1 + number_text(c.1).len();
    let t = coordinate_text(c);
    assert(s.subrange(i, a) =~= number_text(c.0)) by {
        assert forall|k: int| 0 <= k < a - i implies s.subrange(i, a)[k] == number_text(c.0)[k] by {
            assert(s.subrange(i, a)[k] == s.subrange(i, b)[k]);
            assert(t[k] == number_text(c.0)[k]);
        }
    }
    assert(s[a] == t[a - i]);
    assert(s[a] == 0x20u8);
    lemma_number_in(s, i, c.0);
    assert(s[a + 1] == t[a + 1 - i]);
    assert(t[a + 1 - i] == number_text(c.1)[0]);
    assert(spaces_end(s, a + 1) == a + 1);
    assert(spaces_end(s, a) == a + 1);
    assert(s.subrange(a + 1, b) =~= number_text(c.1)) by {
        assert forall|k: int| 0 <= k < b - a - 1 implies s.subrange(a + 1, b)[k] == number_text(c.1)[k] by {
            assert(s.subrange(a + 1, b)[k] == s.subrange(i, b)[k + a + 1 - i]);
            assert(t[k + a + 1 - i] == number_text(c.1)[k]);
        }
    }
    lemma_number_in(s, a + 1, c.1);
}

proof fn lemma_letters_in(s: Seq<u8>, i: int, e: int)
    requires
        0 <= i <= e <= s.len(),
        forall|k: int| i <= k < e ==> is_instruction(#[trigger] s[k]),
        e < s.len() ==> !is_instruction(s[e]),
    ensures
        letters_end(s, i) == e,
    decreases e - i,
{
    if i < e {
        lemma_letters_in(s, i + 1, e);
    }
}

/// A script rendered from a grid corner, one rover's start and a program
/// of at most a hundred instructions, all coordinates within fifty, parses
/// back to exactly that corner and that one rover block.
pub proof fn lemma_script_round_trip(corner: (nat, nat), start: (nat, nat), heading: Orientation, program: Seq<Instruction>)
    requires
        corner.0 <= 50 && corner.1 <= 50,
        start.0 <= 50 && start.1 <= 50,
        program.len() <= 100,
    ensures
        script_of(script_text(corner, start, heading, program)) == Some((
            (corner.0 as int, corner.1 as int),
            seq![((start.0 as int, start.1 as int), heading, program)],
        )),
{
    let s = script_text(corner, start, heading, program);
    let text = program.map_values(|i: Instruction| instruction_byte(i));
    let ct = coordinate_text(corner);
    let st = coordinate_text(start);
    let b = ct.len() as int;
    assert(s.subrange(0, b) =~= ct);
    assert(s[b] == 0x0au8);
    lemma_coordinate_in(s, 0, corner);
    let i = b + 1;
    let d = i + st.len();
    assert(s.subrange(i, d) =~= st);
    assert(s[d] == 0x20u8);
    lemma_coordinate_in(s, i, start);
    assert(s[d + 1] == heading_byte(heading));
    assert(spaces_end(s, d + 1) == d + 1);
    assert(spaces_end(s, d) == d + 1);
    assert(heading_of(s[d + 1]) == Some(heading));
    assert(s[d + 2] == 0x0au8);
    // program line
    let p = d + 3;
    let e = p + program.len();
    assert(s.len() == e + 1);
    assert forall|k: int| p <= k < e implies is_instruction(#[trigger] s[k]) by {
        assert(s[k] == text[k - p]);
    }
    assert(s[e] == 0x0au8);
    lemma_letters_in(s, p, e);
    assert(program_end(s, p) == e);
    assert(s.subrange(p, e).map_values(|b: u8| instruction_of(b)) =~= program) by {
        assert forall|k: int| 0 <= k < program.len() implies s.subrange(p, e).map_values(|b: u8| instruction_of(b))[k] == program[k] by {
            assert(s[p + k] == text[k]);
        }
    }
    assert(newlines_end(s, e + 1) == e + 1);
    assert(newlines_end(s, e) == e + 1);
    let blk: Block = ((start.0 as int, start.1 as int), heading, program);
    assert(block_at(s, i) == Some((blk, e + 1)));
    // nothing follows
    assert(digits_end(s, e + 1) == e + 1);
    assert(block_at(s, e + 1) is None);
    assert(blocks_from(s, e + 1) =~= Seq::<Block>::empty());
    assert(blocks_from(s, i) =~= seq![blk]);
}

/// Reading back a rendered one-rover script and running it gives the same
/// report line as running that rover's program directly on a fresh grid.
pub proof fn lemma_rendered_script_report(corner: (nat, nat), start: (nat, nat), heading: Orientation, program: Seq<Instruction>)
    requires
        corner.0 <= 50 && corner.1 <= 50,
        start.0 <= 50 && start.1 <= 50,
        program.len() <= 100,
    ensures
        ({
            let (c, blocks) = script_of(script_text(corner, start, heading, program))->0;
            let rover = RoverView { position: (start.0 as int, start.1 as int), orientation: heading, lost: false };
            let grid = HoustonView { bounds: (corner.0 as int, corner.1 as int), scents: Seq::empty() };
            script_reports(c, blocks) == seq![report_of(run_spec(rover, grid, program).0)]
        }),
{
    lemma_script_round_trip(corner, start, heading, program);
    let blk: Block = ((start.0 as int, start.1 as int), heading, program);
    let entries = seq![blk].map_values(|b: Block| start_of(b));
    assert(entries =~= seq![start_of(blk)]);
    assert(entries.drop_last() =~= Seq::empty());
    let grid = HoustonView { bounds: (corner.0 as int, corner.1 as int), scents: Seq::empty() };
    let done = mission_spec(grid, entries).0;
    assert(mission_spec(grid, entries.drop_last()) == (Seq::<RoverView>::empty(), grid));
    assert(entries.last() == start_of(blk));
    assert(done =~= Seq::<RoverView>::empty().push(run_spec(start_of(blk).0, grid, program).0));
    assert(done.map_values(|r: RoverView| report_of(r)) =~= seq![report_of(done[0])]);
}

} // verus!
