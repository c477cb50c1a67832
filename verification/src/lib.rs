pub mod board;
pub mod engine;
pub mod goal;
pub mod grid;
pub mod history;
pub mod moves;
