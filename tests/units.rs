use mars_rover::bounding_box::BoundingBox;
use mars_rover::coordinate::Coordinate;
use mars_rover::houston::Houston;
use mars_rover::instruction::Instruction;
use mars_rover::orientation::Orientation;
use mars_rover::parser::{coordinate, houston, instruction, number, orientation};
use mars_rover::rover::Rover;

#[test]
fn test_inside() {
    let bounding_box = BoundingBox::new(15, 10);
    assert_eq!(bounding_box.is_inside(5, 5), true);
    assert_eq!(bounding_box.is_inside(15, 10), true);
    assert_eq!(bounding_box.is_inside(20, 10), false);
    assert_eq!(bounding_box.is_inside(25, 5), false);
    assert_eq!(bounding_box.is_inside(15, 15), false);
}

#[test]
fn test_create() {
    let coordinate = Coordinate::new(5, 8);
    assert_eq!(coordinate.tuple(), (5, 8));
    assert_eq!(coordinate.x(), 5);
    assert_eq!(coordinate.y(), 8);
    assert_eq!(coordinate.tuple(), (5, 8));
    assert_eq!("(5, 8)", coordinate.render());
}

#[test]
fn test_has_scent() {
    let position = Coordinate::new(10, 25);
    let mut houston = Houston::new(position);
    let scent = Coordinate::new(8, 20);
    houston.leave_scent(&scent);
    assert!(houston.has_scent(&scent));
}

#[test]
fn orientation_test_turn_left() {
    assert_eq!(Orientation::North.turn_left(), Orientation::West);
    assert_eq!(Orientation::West.turn_left(), Orientation::South);
    assert_eq!(Orientation::South.turn_left(), Orientation::East);
    assert_eq!(Orientation::East.turn_left(), Orientation::North);
}

#[test]
fn orientation_test_turn_right() {
    assert_eq!(Orientation::North.turn_right(), Orientation::East);
    assert_eq!(Orientation::East.turn_right(), Orientation::South);
    assert_eq!(Orientation::South.turn_right(), Orientation::West);
    assert_eq!(Orientation::West.turn_right(), Orientation::North);
}

#[test]
fn test_parse_orientation() {
    assert!(matches!(orientation(b"N", 0), Some(Orientation::North)));
    assert!(matches!(orientation(b"E", 0), Some(Orientation::East)));
    assert!(matches!(orientation(b"S", 0), Some(Orientation::South)));
    assert!(matches!(orientation(b"W", 0), Some(Orientation::West)));
}

#[test]
fn test_parse_instruction() {
    assert!(matches!(instruction(b'L'), Some(Instruction::Left)));
    assert!(matches!(instruction(b'R'), Some(Instruction::Right)));
    assert!(matches!(instruction(b'F'), Some(Instruction::Forward)));
}

#[test]
fn test_parse_coordinate() {
    assert_eq!(coordinate(b"15 25", 0), Some((Coordinate::new(15, 25), 5)));
    assert!(coordinate(b"1525", 0).is_none());
    assert!(coordinate(b"15,25", 0).is_none());
}

#[test]
fn test_parse_number() {
    assert_eq!(number(b"20", 0), Some((20, 2)));
    assert!(number(b"HH", 0).is_none());
}

#[test]
fn test_parse_houston() {
    assert_eq!(houston(b"15 25\n"), Some((Houston::new(Coordinate::new(15, 25)), 6)));
    assert!(houston(b"15 25").is_none());
}

#[test]
fn rover_test_turn_left() {
    let position = Coordinate::new(10, 5);
    let mut rover = Rover::new(position, Orientation::North);
    assert!(matches!(rover.turn_left().orientation(), Orientation::West));
    assert!(matches!(rover.turn_left().orientation(), Orientation::South));
    assert!(matches!(rover.turn_left().orientation(), Orientation::East));
}

#[test]
fn rover_test_turn_right() {
    let position = Coordinate::new(10, 5);
    let mut rover = Rover::new(position, Orientation::North);
    assert!(matches!(rover.turn_right().orientation(), Orientation::East));
    assert!(matches!(rover.turn_right().orientation(), Orientation::South));
    assert!(matches!(rover.turn_right().orientation(), Orientation::West));
}

#[test]
fn test_forward() {
    let mut houston = Houston::new(Coordinate::new(10, 10));

    let position = Coordinate::new(10, 5);
    let mut rover = Rover::new(position, Orientation::North);

    assert_eq!(rover.forward(&mut houston).position(), Coordinate::new(10, 6));

    rover.turn_left();

    assert_eq!(rover.forward(&mut houston).position(), Coordinate::new(9, 6));

    rover.turn_right();

    assert_eq!(rover.forward(&mut houston).position(), Coordinate::new(9, 7));

    rover.turn_right();

    assert_eq!(rover.forward(&mut houston).position(), Coordinate::new(10, 7));

    rover.turn_right();

    assert_eq!(rover.forward(&mut houston).position(), Coordinate::new(10, 6));

    rover.turn_right();
    rover.turn_right();
    rover.turn_right();

    rover.forward(&mut houston);

    assert_eq!(rover.is_lost(), true);
}
