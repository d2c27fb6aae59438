pub mod ascii_box;
pub mod board;
pub mod cell;
pub mod coord;
pub mod mark;
pub mod states;
