//! A cellular automaton in the style of Conway's Game of Life, extended with a
//! decaying `Dying` state: a cell that loses its neighbors fades out over a
//! configurable number of ticks instead of dying at once, and may be rescued
//! back to `Alive` whenever it sees exactly three live neighbors.
//!
//! The crate holds the simulation core alone: the grid, the Moore-neighborhood
//! counting pass and the per-cell transition rule. Rendering and event handling
//! are left to a caller that reads the cell states once per tick.

pub mod board;
pub mod cell;
pub mod laws;

pub use board::Board;
pub use board::SeedError;
pub use cell::Cell;
pub use cell::CellState;
