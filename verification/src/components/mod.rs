//! The parts of the screen that hold state.

pub mod file_list;
pub mod help;
pub mod line_numbers;
