//! The per-cell state and the transition rule applied to every cell once per
//! tick.

use vstd::prelude::*;

verus! {

/// A cell is `Alive`, `Dead`, or decaying: `Dying(n)` fades to `Dying(n - 1)`
/// each tick until `Dying(0)` turns `Dead`, unless it is rescued by exactly
/// three live neighbors.
#[derive(Clone, Copy, PartialEq, Eq, Structural, Debug)]
pub enum CellState {
    Alive,
    Dying(usize),
    Dead,
}

/// A cell state together with the cached count of `Alive` Moore neighbors.
/// The count is transient: it is recomputed from scratch at the start of each
/// tick, before any cell's state changes, and is only meaningful between that
/// recomputation and the transition pass of the same tick.
#[derive(Clone, Copy, PartialEq, Eq, Structural, Debug)]
pub struct Cell {
    pub state: CellState,
    pub neighbor_count: usize,
}

/// A freshly constructed dead cell.
pub open spec fn dead_cell() -> Cell {
    Cell { state: CellState::Dead, neighbor_count: 0 }
}

/// A freshly constructed live cell.
pub open spec fn alive_cell() -> Cell {
    Cell { state: CellState::Alive, neighbor_count: 0 }
}

/// The transition rule, as a function of the current state, the count of
/// `Alive` Moore neighbors observed at the start of the tick, and the
/// configured decay length `cycles_to_die`:
/// - `Alive` survives with 2 or 3 neighbors, otherwise starts decaying as
///   `Dying(cycles_to_die)`;
/// - `Dying(_)` is rescued to `Alive` by exactly 3 neighbors; otherwise
///   `Dying(0)` turns `Dead` and `Dying(n)` with `n > 0` fades to
///   `Dying(n - 1)`;
/// - `Dead` is born `Alive` with exactly 3 neighbors, otherwise stays `Dead`.
pub open spec fn next_state(s: CellState, neighbor_count: int, cycles_to_die: usize) -> CellState {
    match s {
        CellState::Alive => {
            if neighbor_count < 2 || neighbor_count > 3 {
                CellState::Dying(cycles_to_die)
            } else {
                CellState::Alive
            }
        },
        CellState::Dying(cycles_left) => {
            if neighbor_count == 3 {
                CellState::Alive
            } else if cycles_left == 0 {
                CellState::Dead
            } else {
                CellState::Dying((cycles_left - 1) as usize)
            }
        },
        CellState::Dead => {
            if neighbor_count == 3 {
                CellState::Alive
            } else {
                CellState::Dead
            }
        },
    }
}

impl Cell {
    /// A dead cell with a zeroed neighbor count.
    pub fn dead() -> (c: Cell)
        ensures
            c == dead_cell(),
    {
        Cell { state: CellState::Dead, neighbor_count: 0 }
    }

    /// A live cell with a zeroed neighbor count.
    pub fn alive() -> (c: Cell)
        ensures
            c == alive_cell(),
    {
        Cell { state: CellState::Alive, neighbor_count: 0 }
    }
}

} // verus!
