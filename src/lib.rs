pub mod bounding_box;
pub mod coordinate;
pub mod error;
pub mod houston;
pub mod instruction;
pub mod mission;
pub mod orientation;
pub mod parser;
pub mod rover;
pub mod script;
pub mod text;
