//! Pure conversions between pixel coordinates, array positions and
//! origin-centered plane points, together with the `"(x, y)"` text form of a
//! point.
//!
//! `absolute_to_relative` floor-divides a pixel coordinate by a cell's pixel
//! size; true floor division (toward negative infinity) keeps negative pixel
//! coordinates consistent at the camera's left and top edges.

use vstd::prelude::*;
use crate::decimal;

verus! {

/// A row/column position in a square array window, row 0 at the top.
#[derive(Debug, PartialEq, Eq, Structural, Clone, Copy)]
pub struct ArrPos {
    pub row: i64,
    pub col: i64,
}

/// A point of the origin-centered plane, y growing upward.
#[derive(Debug, PartialEq, Eq, Structural, Clone, Copy)]
pub struct Point {
    pub x: i64,
    pub y: i64,
}

/// An axis-aligned rectangle of the plane, given by two corners.
#[derive(Debug, PartialEq, Eq, Structural, Clone, Copy)]
pub struct Rect {
    pub x1: i64,
    pub y1: i64,
    pub x2: i64,
    pub y2: i64,
}

/// The `"(x, y)"` text of the point `(x, y)`.
pub open spec fn spec_point_text(x: int, y: int) -> Seq<char> {
    seq!['('] + decimal::spec_int_chars(x) + seq![','] + seq![' '] + decimal::spec_int_chars(y)
        + seq![')']
}

/// Renders a point as `"(x, y)"`: signed decimal integers, one comma-space
/// separator, no surrounding whitespace.
pub fn serialize_point(point: &Point) -> (s: String)
    ensures
        s@ == spec_point_text(point.x as int, point.y as int),
{
    let mut s = String::new();
    proof {
        reveal_strlit("(");
        reveal_strlit(", ");
        reveal_strlit(")");
    }
    s.append("(");
    let sx = decimal::int_to_string(point.x);
    s.append(sx.as_str());
    s.append(", ");
    let sy = decimal::int_to_string(point.y);
    s.append(sy.as_str());
    s.append(")");
    proof {
        assert(s@ =~= spec_point_text(point.x as int, point.y as int));
    }
    s
}

/// The position of the first `", "` in `s` at or after `from`, or -1 when
/// there is none.
pub open spec fn find_comma_space(s: Seq<char>, from: int) -> int
    decreases s.len() - from,
{
    if from < 0 || from + 1 >= s.len() {
        -1
    } else if s[from] == ',' && s[from + 1] == ' ' {
        from
    } else {
        find_comma_space(s, from + 1)
    }
}

/// A found separator really is one, and lies in range.
pub proof fn lemma_find_comma_space(s: Seq<char>, from: int)
    requires
        0 <= from,
    ensures
        find_comma_space(s, from) == -1 || (from <= find_comma_space(s, from)
            && find_comma_space(s, from) + 1 < s.len() && s[find_comma_space(s, from)] == ','
            && s[find_comma_space(s, from) + 1] == ' '),
    decreases s.len() - from,
{
    if from + 1 >= s.len() {
    } else if s[from] == ',' && s[from + 1] == ' ' {
    } else {
        lemma_find_comma_space(s, from + 1);
    }
}

/// What `deserialize_point` accepts: `'('` first, `')'` last and nowhere
/// else, a first `", "` separator, and two signed decimal components that
/// fit in an `i64`.
pub open spec fn spec_parse_point(s: Seq<char>) -> Option<(int, int)> {
    if s.len() < 2 || s[0] != '(' || s[s.len() - 1] != ')' || (exists|k: int|
        1 <= k < s.len() - 1 && s[k] == ')') {
        None
    } else {
        let i = find_comma_space(s, 0);
        if i < 0 {
            None
        } else {
            let xs = s.subrange(1, i);
            let ys = s.subrange(i + 2, s.len() - 1);
            if decimal::parses_to_i64(xs) && decimal::parses_to_i64(ys) {
                Some((decimal::spec_int_value(xs), decimal::spec_int_value(ys)))
            } else {
                None
            }
        }
    }
}

/// The separator search finds `i` when `i` is a separator and none lies
/// before it.
proof fn lemma_find_comma_space_at(s: Seq<char>, from: int, i: int)
    requires
        0 <= from <= i,
        i + 1 < s.len(),
        s[i] == ',',
        s[i + 1] == ' ',
        forall|j: int| from <= j < i ==> !(#[trigger] s[j] == ',' && s[j + 1] == ' '),
    ensures
        find_comma_space(s, from) == i,
    decreases i - from,
{
    if from < i {
        lemma_find_comma_space_at(s, from + 1, i);
    }
}

/// Round trip: the text of any representable point parses back to exactly
/// that point.
pub proof fn lemma_point_text_round_trip(x: int, y: int)
    requires
        i64::MIN <= x <= i64::MAX,
        i64::MIN <= y <= i64::MAX,
    ensures
        spec_parse_point(spec_point_text(x, y)) == Some((x, y)),
{
    let a = decimal::spec_int_chars(x);
    let b = decimal::spec_int_chars(y);
    let t = spec_point_text(x, y);
    decimal::lemma_int_chars_text(x);
    decimal::lemma_int_chars_text(y);
    let la = a.len() as int;
    let lb = b.len() as int;
    assert(t.len() == la + lb + 4);
    assert(t[0] == '(');
    assert(t[t.len() - 1] == ')');
    assert forall|k: int| 0 <= k < t.len() implies #[trigger] t[k] == (if k == 0 {
        '('
    } else if k < 1 + la {
        a[k - 1]
    } else if k == 1 + la {
        ','
    } else if k == 2 + la {
        ' '
    } else if k < 3 + la + lb {
        b[k - 3 - la]
    } else {
        ')'
    }) by {
        assert(t == seq!['('] + a + seq![','] + seq![' '] + b + seq![')']);
    }
    assert forall|k: int| 1 <= k < t.len() - 1 implies t[k] != ')' by {
        if 1 <= k < 1 + la {
            if a[k - 1] != '-' {
                decimal::lemma_digit_is_plain(a[k - 1]);
            }
        } else if 3 + la <= k < 3 + la + lb {
            if b[k - 3 - la] != '-' {
                decimal::lemma_digit_is_plain(b[k - 3 - la]);
            }
        }
    }
    assert forall|j: int| 0 <= j < 1 + la implies !(#[trigger] t[j] == ',' && t[j + 1] == ' ') by {
        if 1 <= j < 1 + la {
            if a[j - 1] != '-' {
                decimal::lemma_digit_is_plain(a[j - 1]);
            }
        }
    }
    lemma_find_comma_space_at(t, 0, 1 + la);
    assert(t.subrange(1, 1 + la) =~= a);
    assert(t.subrange(3 + la, t.len() - 1) =~= b);
    assert(decimal::parses_to_i64(a));
    assert(decimal::parses_to_i64(b));
    assert(spec_parse_point(t) == Some((x, y)));
}

/// Parses the `"(x, y)"` form back to a point, returning `None` on any
/// malformed text instead of failing.
pub fn deserialize_point(str: &String) -> (r: Option<Point>)
    ensures
        match r {
            Some(p) => spec_parse_point(str@) == Some((p.x as int, p.y as int)),
            None => spec_parse_point(str@) is None,
        },
{
    let n = str.as_str().unicode_len();
    if n < 2 {
        return None;
    }
    proof {
        reveal_strlit("(");
        reveal_strlit(")");
    }
    if str.as_str().get_char(0) != '(' {
        return None;
    }
    if str.as_str().get_char(n - 1) != ')' {
        return None;
    }
    // the first ')' must be the final character
    let mut k: usize = 1;
    while k < n - 1
        invariant
            1 <= k <= n - 1,
            n == str@.len(),
            2 <= n <= usize::MAX,
            forall|j: int| 1 <= j < k ==> str@[j] != ')',
        decreases n - 1 - k,
    {
        if str.as_str().get_char(k) == ')' {
            return None;
        }
        k = k + 1;
    }
    // the first ", " separator
    let mut i: usize = 0;
    let mut comma: usize = 0;
    let mut found: bool = false;
    while i < n - 1
        invariant_except_break
            0 <= i <= n - 1,
            !found,
            find_comma_space(str@, 0) == find_comma_space(str@, i as int),
        invariant
            n == str@.len(),
            2 <= n <= usize::MAX,
        ensures
            found ==> find_comma_space(str@, 0) == comma && comma < n - 1,
            !found ==> find_comma_space(str@, 0) == -1,
        decreases n - 1 - i,
    {
        if str.as_str().get_char(i) == ',' && str.as_str().get_char(i + 1) == ' ' {
            comma = i;
            found = true;
            proof {
                assert(find_comma_space(str@, i as int) == i);
            }
            break;
        }
        i = i + 1;
        proof {
            assert(find_comma_space(str@, i - 1) == find_comma_space(str@, i as int));
        }
    }
    if !found {
        return None;
    }
    proof {
        lemma_find_comma_space(str@, 0);
        assert(str@[comma as int] == ',' && str@[comma + 1] == ' ');
        assert(comma >= 1);
        assert(comma + 1 != n - 1);
    }
    let x = match decimal::parse_i64_range(str, 1, comma) {
        Some(v) => v,
        None => {
            proof {
                assert(str@.subrange(1, comma as int) =~= str@.subrange(1, comma as int));
            }
            return None;
        },
    };
    let y = match decimal::parse_i64_range(str, comma + 2, n - 1) {
        Some(v) => v,
        None => {
            return None;
        },
    };
    Some(Point { x, y })
}

/// Floor division of a pixel coordinate by a cell's pixel size, rounding
/// toward negative infinity.
pub fn absolute_to_relative(value: i64, unit_size: i64) -> (r: i64)
    requires
        unit_size > 0,
        i64::MIN < value,
    ensures
        r as int == (value as int) / (unit_size as int),
{
    if value >= 0 {
        value / unit_size
    } else {
        let a = -(value + 1);
        let q = a / unit_size;
        proof {
            let av = a as int;
            let u = unit_size as int;
            let qv = q as int;
            vstd::arithmetic::div_mod::lemma_fundamental_div_mod(av, u);
            vstd::arithmetic::div_mod::lemma_mod_bound(av, u);
            let rv = av % u;
            assert(av == u * qv + rv);
            assert((-qv - 1) * u == -(u * qv) - u) by (nonlinear_arith);
            assert(value as int == (-qv - 1) * u + (u - 1 - rv));
            vstd::arithmetic::div_mod::lemma_fundamental_div_mod_converse(
                value as int,
                u,
                -qv - 1,
                u - 1 - rv,
            );
        }
        -q - 1
    }
}

/// The plane point of the array cell `(row, col)` in a window of side
/// `length`: `x = -length/2 + col`, `y = length/2 - row`.
pub fn index_to_point(position: ArrPos, length: i64) -> (p: Point)
    requires
        0 <= length <= 0x4000000000000000,
        -0x4000000000000000 <= position.row <= 0x4000000000000000,
        -0x4000000000000000 <= position.col <= 0x4000000000000000,
    ensures
        (p.x as int, p.y as int) == crate::coordinate::spec_matrix_to_cartesian(
            position.row as int,
            position.col as int,
            length as int,
        ),
{
    let half = length / 2;
    Point { x: -half + position.col, y: half - position.row }
}

/// The array cell of the plane point `(x, y)` in a window of side `length`:
/// `col = length/2 + x`, `row = length/2 - y`.
pub fn point_to_index(point: Point, length: i64) -> (r: ArrPos)
    requires
        0 <= length <= 0x4000000000000000,
        -0x4000000000000000 <= point.x <= 0x4000000000000000,
        -0x4000000000000000 <= point.y <= 0x4000000000000000,
    ensures
        (r.row as int, r.col as int) == crate::coordinate::spec_cartesian_to_matrix(
            point.x as int,
            point.y as int,
            length as int,
        ),
{
    let half = length / 2;
    ArrPos { col: half + point.x, row: half - point.y }
}

} // verus!
