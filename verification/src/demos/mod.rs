//! The services of the demonstration programs.

pub mod egui_counter;
pub mod tui_counter;
