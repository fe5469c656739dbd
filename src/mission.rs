use vstd::prelude::*;
use vstd::string::StringSliceAdditionalSpecFns;

use crate::error::{ApplicationError, ApplicationErrorKind};
use crate::houston::{Houston, HoustonView};
use crate::instruction::Instruction;
use crate::parser::{all_stand_for, block_is_small, lemma_blocks_small, parse, script_of, Block};
use crate::rover::{clear_of_limits, report_of, run_spec, Rover, RoverView};

verus! {

/// A rover with its program, as values.
pub open spec fn entry_view(e: (Rover, Vec<Instruction>)) -> (RoverView, Seq<Instruction>) {
    (e.0@, e.1@)
}

/// The rover and program that a script's block describes.
pub open spec fn start_of(b: Block) -> (RoverView, Seq<Instruction>) {
    (RoverView { position: b.0, orientation: b.1, lost: false }, b.2)
}

/// Each rover in turn carries out its whole program against the same
/// mission control: the rovers' final states, in order, and what mission
/// control knows at the end.
pub open spec fn mission_spec(h: HoustonView, entries: Seq<(RoverView, Seq<Instruction>)>) -> (Seq<RoverView>, HoustonView)
    decreases entries.len(),
{
    if entries.len() == 0 {
        (Seq::empty(), h)
    } else {
        let (done, h1) = mission_spec(h, entries.drop_last());
        let (r, h2) = run_spec(entries.last().0, h1, entries.last().1);
        (done.push(r), h2)
    }
}

/// A mission reports one final state per rover.
pub proof fn lemma_mission_len(h: HoustonView, entries: Seq<(RoverView, Seq<Instruction>)>)
    ensures
        mission_spec(h, entries).0.len() == entries.len(),
    decreases entries.len(),
{
    if entries.len() > 0 {
        lemma_mission_len(h, entries.drop_last());
    }
}

/// The report lines of a whole script, rover by rover.
pub open spec fn script_reports(corner: (int, int), blocks: Seq<Block>) -> Seq<Seq<char>> {
    let start = HoustonView { bounds: corner, scents: Seq::empty() };
    mission_spec(start, blocks.map_values(|b: Block| start_of(b))).0.map_values(|r: RoverView| report_of(r))
}

/// Runs each rover's program in order against `houston`, and hands back the
/// rovers in their final states.
pub fn run_mission(houston: &mut Houston, rovers: Vec<(Rover, Vec<Instruction>)>) -> (r: Vec<Rover>)
    requires
        forall|k: int| 0 <= k < rovers@.len() ==> clear_of_limits(#[trigger] rovers@[k].0@, rovers@[k].1@.len() as int),
    ensures
        (r@.map_values(|v: Rover| v@), final(houston)@) == mission_spec(old(houston)@, rovers@.map_values(|e: (Rover, Vec<Instruction>)| entry_view(e))),
{
    let ghost entries = rovers@.map_values(|e: (Rover, Vec<Instruction>)| entry_view(e));
    let ghost total = rovers@.len();
    let mut rest = rovers;
    let mut done: Vec<Rover> = Vec::new();
    while rest.len() > 0
        invariant
            done@.len() + rest@.len() == total,
            entries.len() == total,
            forall|k: int| 0 <= k < rest@.len() ==> entry_view(#[trigger] rest@[k]) == entries[done@.len() + k],
            forall|k: int| 0 <= k < rest@.len() ==> clear_of_limits(#[trigger] rest@[k].0@, rest@[k].1@.len() as int),
            (done@.map_values(|v: Rover| v@), houston@) == mission_spec(old(houston)@, entries.take(done@.len() as int)),
        decreases rest@.len(),
    {
        let ghost before = rest@;
        let (mut rover, program) = rest.remove(0);
        assert(entry_view(before[0]) == entries[done@.len() as int]);
        assert(clear_of_limits(before[0].0@, before[0].1@.len() as int));
        rover.execute_instructions(houston, &program);
        let ghost n = done@.len() as int;
        assert(entries.take(n + 1).drop_last() =~= entries.take(n));
        done.push(rover);
        assert(done@.map_values(|v: Rover| v@) =~= done@.drop_last().map_values(|v: Rover| v@).push(done@.last()@));
        assert forall|k: int| 0 <= k < rest@.len() implies entry_view(#[trigger] rest@[k]) == entries[done@.len() + k] by {
            assert(rest@[k] == before[k + 1]);
        }
        assert forall|k: int| 0 <= k < rest@.len() implies clear_of_limits(#[trigger] rest@[k].0@, rest@[k].1@.len() as int) by {
            assert(rest@[k] == before[k + 1]);
        }
    }
    assert(entries.take(done@.len() as int) =~= entries);
    done
}

/// Reads a mission script and runs it: one report line per rover, in the
/// order of the script, or the input error when the script does not parse.
pub fn simulate(script: &str) -> (r: Result<Vec<String>, ApplicationError>)
    ensures
        r is Ok <==> script_of(script.spec_bytes()) is Some,
        r matches Ok(lines) ==> {
            let (corner, blocks) = script_of(script.spec_bytes())->0;
            &&& lines@.len() == blocks.len()
            &&& forall|k: int| 0 <= k < lines@.len() ==> (#[trigger] lines@[k])@ == script_reports(corner, blocks)[k]
        },
        r matches Err(e) ==> e@.kind == ApplicationErrorKind::Input,
{
    let (mut houston, rovers) = match parse(script) {
        Ok(p) => p,
        Err(e) => {
            return Err(e);
        },
    };
    let ghost (corner, blocks) = script_of(script.spec_bytes())->0;
    proof {
        lemma_blocks_small(script.spec_bytes(), 0);
        assert forall|k: int| 0 <= k < rovers@.len() implies clear_of_limits(#[trigger] rovers@[k].0@, rovers@[k].1@.len() as int) by {
            assert(all_stand_for(rovers@, blocks));
            assert(block_is_small(blocks[k])) by {
                let s = script.spec_bytes();
                let j = (crate::parser::coordinate_at(s, 0)->0).1;
                lemma_blocks_small(s, j + 1);
            }
        }
        assert(rovers@.map_values(|e: (Rover, Vec<Instruction>)| entry_view(e)) =~= blocks.map_values(|b: Block| start_of(b)));
        assert(houston@.scents =~= Seq::<(int, int)>::empty());
        assert(houston@ == HoustonView { bounds: corner, scents: Seq::empty() });
        lemma_mission_len(houston@, blocks.map_values(|b: Block| start_of(b)));
    }
    let finished = run_mission(&mut houston, rovers);
    proof {
        let views = finished@.map_values(|v: Rover| v@);
        assert(views.len() == finished@.len());
        assert forall|k: int| 0 <= k < finished@.len() implies report_of((#[trigger] finished@[k])@) == script_reports(corner, blocks)[k] by {
            assert(views[k] == finished@[k]@);
        }
    }
    let mut lines: Vec<String> = Vec::new();
    let mut i: usize = 0;
    while i < finished.len()
        invariant
            i <= finished@.len(),
            finished@.len() == blocks.len(),
            lines@.len() == i,
            forall|k: int| 0 <= k < i ==> (#[trigger] lines@[k])@ == script_reports(corner, blocks)[k],
            forall|k: int| 0 <= k < finished@.len() ==> report_of((#[trigger] finished@[k])@) == script_reports(corner, blocks)[k],
        decreases finished@.len() - i,
    {
        lines.push(finished[i].report());
        i = i + 1;
    }
    Ok(lines)
}

} // verus!
