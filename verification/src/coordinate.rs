//! Points of the world grid and of a finite square window, and the
//! conversions between the two.
//!
//! A `CartesianP` lives on the infinite, origin-centered world grid.
//! A `MatrixP` is a row/column index into a square window of a given side
//! length, row 0 at the top. With `half = length / 2` the window's cell
//! `(row, col)` sits at the world point `(-half + col, half - row)`.

use vstd::prelude::*;
use vstd::string::StringExecFns;

verus! {

/// A position on the infinite world grid, origin-centered, y growing upward.
#[derive(Debug, PartialEq, Eq, Structural, Hash, Clone, Copy)]
pub struct CartesianP {
    pub x: i64,
    pub y: i64,
}

impl CartesianP {
    /// Builds the point `(x, y)`.
    pub fn from(x: i64, y: i64) -> (r: CartesianP)
        ensures
            r.x == x,
            r.y == y,
    {
        CartesianP { x, y }
    }

    /// The point as `"(x, y)"` text.
    pub fn text(&self) -> (s: String)
        ensures
            s@ == seq!['('] + crate::decimal::spec_int_chars(self.x as int) + seq![','] + seq![
                ' ',
            ] + crate::decimal::spec_int_chars(self.y as int) + seq![')'],
    {
        let mut s = String::new();
        proof {
            reveal_strlit("(");
            reveal_strlit(", ");
            reveal_strlit(")");
        }
        s.append("(");
        let sx = crate::decimal::int_to_string(self.x);
        s.append(sx.as_str());
        s.append(", ");
        let sy = crate::decimal::int_to_string(self.y);
        s.append(sy.as_str());
        s.append(")");
        proof {
            assert(s@ =~= seq!['('] + crate::decimal::spec_int_chars(self.x as int) + seq![',']
                + seq![' '] + crate::decimal::spec_int_chars(self.y as int) + seq![')']);
        }
        s
    }
}

/// A position inside a square window, row 0 at the top, column 0 at the left.
#[derive(Debug, PartialEq, Eq, Structural, Clone, Copy)]
pub struct MatrixP {
    pub row: i64,
    pub col: i64,
}

impl MatrixP {
    /// Builds the matrix position at `row`, `col`.
    pub fn from(row: i64, col: i64) -> (r: MatrixP)
        ensures
            r.row == row,
            r.col == col,
    {
        MatrixP { row, col }
    }
}

/// The world point of the window cell `(row, col)` for a window of side
/// `length`: `x = -length/2 + col`, `y = length/2 - row`.
pub open spec fn spec_matrix_to_cartesian(row: int, col: int, length: int) -> (int, int) {
    (-(length / 2) + col, length / 2 - row)
}

/// The window cell of the world point `(x, y)` for a window of side `length`:
/// `col = length/2 + x`, `row = length/2 - y`. Exact inverse of
/// `spec_matrix_to_cartesian`.
pub open spec fn spec_cartesian_to_matrix(x: int, y: int, length: int) -> (int, int) {
    (length / 2 - y, length / 2 + x)
}

/// Converts a window position to the world point it denotes.
pub fn matrix_to_cartesian(pos: MatrixP, length: i64) -> (r: CartesianP)
    requires
        0 <= length,
        -0x4000000000000000 <= pos.row <= 0x4000000000000000,
        -0x4000000000000000 <= pos.col <= 0x4000000000000000,
        length <= 0x4000000000000000,
    ensures
        (r.x as int, r.y as int) == spec_matrix_to_cartesian(pos.row as int, pos.col as int, length as int),
{
    let half = length / 2;
    proof {
        assert(length / 2 == length as int / 2) by (nonlinear_arith)
            requires 0 <= length;
    }
    CartesianP { x: -half + pos.col, y: half - pos.row }
}

/// Converts a world point to its position in a window of side `length`.
pub fn cartesian_to_matrix_length(p: CartesianP, length: i64) -> (r: MatrixP)
    requires
        0 <= length,
        -0x4000000000000000 <= p.x <= 0x4000000000000000,
        -0x4000000000000000 <= p.y <= 0x4000000000000000,
        length <= 0x4000000000000000,
    ensures
        (r.row as int, r.col as int) == spec_cartesian_to_matrix(p.x as int, p.y as int, length as int),
{
    let half = length / 2;
    proof {
        assert(length / 2 == length as int / 2) by (nonlinear_arith)
            requires 0 <= length;
    }
    MatrixP { row: half - p.y, col: half + p.x }
}

/// The two conversions are exact inverses: a world point, taken to its
/// window cell and back with the same side length, is unchanged.
pub proof fn lemma_matrix_round_trip(x: int, y: int, length: int)
    ensures
        spec_matrix_to_cartesian(
            spec_cartesian_to_matrix(x, y, length).0,
            spec_cartesian_to_matrix(x, y, length).1,
            length,
        ) == (x, y),
{
}


/// Floor division by a positive divisor keeps a value within a symmetric
/// bound.
pub proof fn lemma_div_magnitude_le(a: int, b: int, l: int)
    requires
        b >= 1,
        0 <= l,
        -l <= a <= l,
    ensures
        -l <= a / b <= l,
{
    vstd::arithmetic::div_mod::lemma_fundamental_div_mod(a, b);
    vstd::arithmetic::div_mod::lemma_mod_bound(a, b);
    let q = a / b;
    let r = a % b;
    assert(-l <= q <= l) by (nonlinear_arith)
        requires
            a == b * q + r,
            0 <= r < b,
            b >= 1,
            0 <= l,
            -l <= a <= l,
    ;
}

} // verus!
