use mars_rover::bounding_box::BoundingBox;
use mars_rover::coordinate::Coordinate;
use mars_rover::error::{ApplicationError, ApplicationErrorKind};
use mars_rover::houston::Houston;
use mars_rover::instruction::Instruction;
use mars_rover::mission::{run_mission, simulate};
use mars_rover::orientation::Orientation;
use mars_rover::parser::{instructions, parse};
use mars_rover::rover::Rover;

fn program(text: &str) -> Vec<Instruction> {
    text.bytes()
        .map(|b| match b {
            b'L' => Instruction::Left,
            b'R' => Instruction::Right,
            _ => Instruction::Forward,
        })
        .collect()
}

fn run(houston: &mut Houston, x: i64, y: i64, heading: Orientation, text: &str) -> Rover {
    let mut rover = Rover::new(Coordinate::new(x, y), heading);
    rover.execute_instructions(houston, &program(text));
    rover
}

const SAMPLE: &str = "5 3\n1 1 E\nRFRFRFRF\n\n3 2 N\nFRRFLLFFRRFLL\n\n0 3 W\nLLFFFLFLFL\n";

#[test]
fn boundary_checks_upper_corner_only() {
    let grid = BoundingBox::new(5, 3);
    assert!(grid.is_inside(0, 0));
    assert!(grid.is_inside(5, 3));
    assert!(!grid.is_inside(6, 3));
    assert!(!grid.is_inside(5, 4));
    assert!(grid.is_inside(-1, 2));
}

#[test]
fn four_turns_make_a_full_circle() {
    for start in [Orientation::North, Orientation::East, Orientation::South, Orientation::West] {
        assert_eq!(start.turn_left().turn_left().turn_left().turn_left(), start);
        assert_eq!(start.turn_right().turn_right().turn_right().turn_right(), start);
        assert_eq!(start.turn_left().turn_right(), start);
        assert_eq!(start.turn_right().turn_left(), start);
    }
}

#[test]
fn lost_rover_stays_put() {
    let mut houston = Houston::new(Coordinate::new(2, 2));
    let mut rover = run(&mut houston, 2, 2, Orientation::North, "F");
    assert!(rover.is_lost());
    rover.turn_left();
    rover.turn_left();
    rover.forward(&mut houston);
    rover.forward(&mut houston);
    assert!(rover.is_lost());
    assert_eq!(rover.position(), Coordinate::new(2, 2));
    assert_eq!(*rover.orientation(), Orientation::South);
    assert_eq!(rover.report(), "2 2 S LOST");
}

#[test]
fn scent_blocks_every_later_rover() {
    let mut houston = Houston::new(Coordinate::new(3, 3));
    let first = run(&mut houston, 0, 3, Orientation::North, "F");
    assert!(first.is_lost());
    assert!(houston.has_scent(&Coordinate::new(0, 4)));
    let second = run(&mut houston, 0, 2, Orientation::North, "FFF");
    assert!(!second.is_lost());
    assert_eq!(second.report(), "0 3 N");
    let third = run(&mut houston, 1, 3, Orientation::West, "FRF");
    assert!(!third.is_lost());
    assert_eq!(third.report(), "0 3 N");
    let fourth = run(&mut houston, 1, 3, Orientation::North, "F");
    assert!(fourth.is_lost());
    assert!(houston.has_scent(&Coordinate::new(1, 4)));
}

#[test]
fn parsed_rendering_reproduces_the_sample() {
    let mut text = String::new();
    text.push_str(&format!("{} {}\n", 5, 3));
    text.push_str(&format!("{} {} {}\n{}\n", 3, 2, "N", "FRRFLLFFRRFLL"));
    let lines = simulate(&text).unwrap();
    let mut houston = Houston::new(Coordinate::new(5, 3));
    let reference = run(&mut houston, 3, 2, Orientation::North, "FRRFLLFFRRFLL");
    assert_eq!(lines, vec![reference.report()]);
    assert_eq!(lines, vec!["3 3 N LOST".to_string()]);
}

#[test]
fn scenario_closed_square() {
    let mut houston = Houston::new(Coordinate::new(5, 3));
    let rover = run(&mut houston, 1, 1, Orientation::North, "RFRFRFRF");
    assert_eq!(rover.position(), Coordinate::new(1, 1));
    assert_eq!(*rover.orientation(), Orientation::North);
    assert!(!rover.is_lost());
}

#[test]
fn scenario_lost_off_the_top() {
    let mut houston = Houston::new(Coordinate::new(5, 3));
    let rover = run(&mut houston, 3, 2, Orientation::North, "FRRFLLFFRRFLL");
    assert_eq!(rover.position(), Coordinate::new(3, 3));
    assert_eq!(*rover.orientation(), Orientation::North);
    assert!(rover.is_lost());
    assert_eq!(rover.report(), "3 3 N LOST");
}

#[test]
fn scenario_saved_by_scent() {
    let lines = simulate(SAMPLE).unwrap();
    assert_eq!(lines, vec!["1 1 E", "3 3 N LOST", "2 3 S"]);
}

#[test]
fn scenario_two_rovers_on_a_ten_grid() {
    let mut houston = Houston::new(Coordinate::new(10, 10));
    let first = run(&mut houston, 10, 10, Orientation::North, "F");
    assert!(first.is_lost());
    assert_eq!(first.position(), Coordinate::new(10, 10));
    assert!(houston.has_scent(&Coordinate::new(10, 11)));
    let second = run(&mut houston, 10, 9, Orientation::North, "FF");
    assert_eq!(second.position(), Coordinate::new(10, 10));
    assert_eq!(*second.orientation(), Orientation::North);
    assert!(!second.is_lost());
}

#[test]
fn out_of_range_coordinate_is_rejected() {
    let error = parse("5 3\n51 0 N\nF\n").unwrap_err();
    assert_eq!(error.kind(), ApplicationErrorKind::Input);
    assert!(parse("51 0\n1 1 N\nF\n").is_err());
    assert!(simulate("5 3\n1 51 N\nF\n").is_err());
}

#[test]
fn boundary_only_script_is_rejected() {
    let error = parse("5 3\n").unwrap_err();
    assert_eq!(error.kind(), ApplicationErrorKind::Input);
    assert!(parse("5 3").is_err());
    assert!(parse("").is_err());
}

#[test]
fn parse_reads_every_block() {
    let (houston, rovers) = parse(SAMPLE).unwrap();
    assert_eq!(houston, Houston::new(Coordinate::new(5, 3)));
    assert_eq!(rovers.len(), 3);
    assert_eq!(rovers[1].0.position(), Coordinate::new(3, 2));
    assert_eq!(*rovers[2].0.orientation(), Orientation::West);
    assert_eq!(rovers[0].1, program("RFRFRFRF"));
}

#[test]
fn parse_accepts_tabs_and_no_space_before_heading() {
    let (_, rovers) = parse("50 50\n0 0N\n\n50\t50   S\nL\n").unwrap();
    assert_eq!(rovers.len(), 2);
    assert_eq!(rovers[0].0.position(), Coordinate::new(0, 0));
    assert!(rovers[0].1.is_empty());
    assert_eq!(rovers[1].0.position(), Coordinate::new(50, 50));
    assert_eq!(*rovers[1].0.orientation(), Orientation::South);
}

#[test]
fn parse_stops_at_what_does_not_parse() {
    let (_, rovers) = parse("5 3\n1 1 E\nF\nrubbish\n").unwrap();
    assert_eq!(rovers.len(), 1);
}

#[test]
fn program_reads_at_most_a_hundred_instructions() {
    let long = "F".repeat(101);
    let (steps, end) = instructions(long.as_bytes(), 0);
    assert_eq!(steps.len(), 100);
    assert_eq!(end, 100);
    let (_, rovers) = parse(&format!("5 3\n0 0 N\n{}\n", long)).unwrap();
    assert_eq!(rovers.len(), 1);
    assert_eq!(rovers[0].1.len(), 100);
}

#[test]
fn run_mission_shares_scents() {
    let mut houston = Houston::new(Coordinate::new(10, 10));
    let rovers = vec![
        (Rover::new(Coordinate::new(10, 10), Orientation::North), program("F")),
        (Rover::new(Coordinate::new(10, 9), Orientation::North), program("FF")),
    ];
    let finished = run_mission(&mut houston, rovers);
    assert_eq!(finished[0].report(), "10 10 N LOST");
    assert_eq!(finished[1].report(), "10 10 N");
}

#[test]
fn rover_walks_below_zero() {
    let mut houston = Houston::new(Coordinate::new(5, 3));
    let rover = run(&mut houston, 0, 0, Orientation::West, "FLF");
    assert!(!rover.is_lost());
    assert_eq!(rover.report(), "-1 -1 S");
    assert_eq!(Coordinate::new(-12, 305).render(), "(-12, 305)");
    assert_eq!(Coordinate::new(i64::MIN, 0).render(), "(-9223372036854775808, 0)");
}

#[test]
fn error_kinds_and_descriptions() {
    let input = ApplicationError::input("bad line");
    assert_eq!(input.kind(), ApplicationErrorKind::Input);
    assert_eq!(input.message(), "bad line");
    assert_eq!(input.describe(), "input; bad line");
    let io = ApplicationError::io("no such file");
    assert_eq!(io.kind(), ApplicationErrorKind::Io);
    assert_eq!(io.describe(), "io; no such file");
    assert_eq!(ApplicationErrorKind::Io.name(), "io");
}

#[test]
fn headings_have_letters() {
    assert_eq!(Orientation::North.letter(), "N");
    assert_eq!(Orientation::East.letter(), "E");
    assert_eq!(Orientation::South.letter(), "S");
    assert_eq!(Orientation::West.letter(), "W");
}

#[test]
fn instructions_have_names() {
    assert_eq!(Instruction::Left.name(), "Left");
    assert_eq!(Instruction::Right.name(), "Right");
    assert_eq!(Instruction::Forward.name(), "Forward");
}
