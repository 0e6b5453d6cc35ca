//! A cellular automaton on a rectangular grid, together with the bookkeeping
//! that keeps one displayed entity per grid slot in step with the grid's size.

pub mod control;
pub mod debug;
pub mod display;
pub mod grid;
pub mod grid_map;
pub mod simulation;
