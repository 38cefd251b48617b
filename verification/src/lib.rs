pub mod board;
pub mod grid;
pub mod infoline;
pub mod laws;
pub mod sudoku;
