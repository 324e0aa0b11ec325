//! The two-state cell and its local transition rule.
//!
//! All higher-level behaviour of the engine reduces to `iterate`: a live cell
//! survives with two or three live neighbors, a dead cell comes alive with
//! exactly three.

use vstd::prelude::*;

verus! {

/// The state of one grid cell. A point absent from the universe's live set
/// is `Dead`; only `Alive` cells are ever stored.
#[derive(Debug, PartialEq, Eq, Structural, Clone, Copy)]
pub enum State {
    Alive,
    Dead,
}

/// The Alive/Dead flip, as a mathematical function.
pub open spec fn spec_toggle(s: State) -> State {
    match s {
        State::Alive => State::Dead,
        State::Dead => State::Alive,
    }
}

/// Conway's B3/S23 rule for one cell: `s` is the cell's current state and
/// `n` the number of its live neighbors.
pub open spec fn spec_cell_iterate(s: State, n: int) -> State {
    match s {
        State::Alive => if n == 2 || n == 3 {
            State::Alive
        } else {
            State::Dead
        },
        State::Dead => if n == 3 {
            State::Alive
        } else {
            State::Dead
        },
    }
}

/// Flips a cell between Alive and Dead.
pub fn toggle(s: &State) -> (r: State)
    ensures
        r == spec_toggle(*s),
{
    match s {
        State::Alive => State::Dead,
        State::Dead => State::Alive,
    }
}

/// Applies Conway's rule to one cell given its live-neighbor count.
pub fn iterate(s: State, number_of_alive_neighbors: u8) -> (r: State)
    ensures
        r == spec_cell_iterate(s, number_of_alive_neighbors as int),
{
    match s {
        State::Alive => if number_of_alive_neighbors == 2 || number_of_alive_neighbors == 3 {
            State::Alive
        } else {
            State::Dead
        },
        State::Dead => if number_of_alive_neighbors == 3 {
            State::Alive
        } else {
            State::Dead
        },
    }
}

} // verus!
