//! Counting the live neighbors of a point against the sparse universe.
//!
//! A point's neighborhood is the eight cells at Chebyshev distance 1; the
//! point itself is never counted, and absence from the live set means
//! `Dead`, never an error.

use vstd::prelude::*;
use crate::coordinate::CartesianP;
use crate::universe::{contains_point, pt, Universe};

verus! {

/// 1 when the live set holds `(x, y)`, else 0.
pub open spec fn ind(live: Set<(int, int)>, x: int, y: int) -> int {
    if live.contains((x, y)) {
        1
    } else {
        0
    }
}

/// The number of live cells among the eight neighbors of `(x, y)`.
pub open spec fn spec_live_neighbors(live: Set<(int, int)>, x: int, y: int) -> int {
    ind(live, x - 1, y + 1) + ind(live, x, y + 1) + ind(live, x + 1, y + 1) + ind(live, x - 1, y)
        + ind(live, x + 1, y) + ind(live, x - 1, y - 1) + ind(live, x, y - 1) + ind(
        live,
        x + 1,
        y - 1,
    )
}

/// Counts the live neighbors of `p` in the universe's sparse set.
pub fn number_of_alive_from_model(u: &Universe, p: &CartesianP) -> (n: u8)
    requires
        i64::MIN < p.x < i64::MAX,
        i64::MIN < p.y < i64::MAX,
    ensures
        n as int == spec_live_neighbors(u.live(), p.x as int, p.y as int),
        n <= 8,
{
    let mut n: u8 = 0;
    if contains_point(&u.value, &CartesianP { x: p.x - 1, y: p.y + 1 }) {
        n = n + 1;
    }
    if contains_point(&u.value, &CartesianP { x: p.x, y: p.y + 1 }) {
        n = n + 1;
    }
    if contains_point(&u.value, &CartesianP { x: p.x + 1, y: p.y + 1 }) {
        n = n + 1;
    }
    if contains_point(&u.value, &CartesianP { x: p.x - 1, y: p.y }) {
        n = n + 1;
    }
    if contains_point(&u.value, &CartesianP { x: p.x + 1, y: p.y }) {
        n = n + 1;
    }
    if contains_point(&u.value, &CartesianP { x: p.x - 1, y: p.y - 1 }) {
        n = n + 1;
    }
    if contains_point(&u.value, &CartesianP { x: p.x, y: p.y - 1 }) {
        n = n + 1;
    }
    if contains_point(&u.value, &CartesianP { x: p.x + 1, y: p.y - 1 }) {
        n = n + 1;
    }
    n
}

} // verus!
