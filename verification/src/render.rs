//! Projecting the visible live cells into pixel rectangles for drawing.
//!
//! A cell inside the camera's window becomes a square of `dim / length`
//! pixels, inset by `gap` on every side; the result is ordered by `x1`,
//! then `y1`, so repeated renders of the same state draw identically.

use vstd::prelude::*;
use vstd::relations::{sorted_by, total_ordering};
use crate::coordinate::{
    cartesian_to_matrix_length, spec_cartesian_to_matrix, CartesianP, MatrixP,
};
use crate::rect::{
    get_center, get_length, get_subdivision_size, rect_in_range, spec_center, spec_length,
    spec_subdivision_size, Rect,
};
use crate::universe::{pt, Universe};

verus! {

/// What the render projector needs: the camera, the square canvas size in
/// pixels, and the inter-cell gap in pixels.
#[derive(Debug, PartialEq, Eq, Structural, Clone, Copy)]
pub struct RenderSettings {
    pub cam: Rect,
    pub dim: u16,
    pub gap: u8,
}

/// Converts a world point to its matrix position for a camera: only the
/// camera's side length matters, so `matrix_to_cartesian` with the same
/// length is its exact inverse.
pub fn cartesian_to_matrix(point: &CartesianP, cam: &Rect) -> (r: MatrixP)
    requires
        cam.x1 <= cam.x2,
        rect_in_range(*cam),
        spec_length(*cam) <= 0x4000000000000000,
        -0x4000000000000000 <= point.x <= 0x4000000000000000,
        -0x4000000000000000 <= point.y <= 0x4000000000000000,
    ensures
        (r.row as int, r.col as int) == spec_cartesian_to_matrix(
            point.x as int,
            point.y as int,
            spec_length(*cam),
        ),
{
    let length = get_length(cam);
    cartesian_to_matrix_length(*point, length)
}

/// Whether the world point `q` lies in the camera's visible window: the
/// square of side `length` whose position within the window, `(half + (x -
/// cx), half - (y - cy))`, lies in `[0, length)` on both axes.
pub open spec fn in_window(cam: Rect, q: (int, int)) -> bool {
    let len = spec_length(cam);
    let c = spec_center(cam);
    let half = len / 2;
    0 <= half + (q.0 - c.0) < len && 0 <= half - (q.1 - c.1) < len
}

/// The pixel rectangle of the visible cell `q`: its window column and row
/// scaled by the cell's pixel size and inset by the gap.
pub open spec fn spec_cell_rect(cam: Rect, dim: u16, gap: u8, q: (int, int)) -> Rect {
    let len = spec_length(cam);
    let c = spec_center(cam);
    let sub = spec_subdivision_size(cam, dim);
    let half = len / 2;
    let col = half + (q.0 - c.0);
    let row = half - (q.1 - c.1);
    let x = col * sub + gap;
    let y = row * sub + gap;
    Rect {
        x1: x as i64,
        y1: y as i64,
        x2: (x + sub - 2 * gap) as i64,
        y2: (y + sub - 2 * gap) as i64,
    }
}

/// The unsorted projection of a cell sequence: the visible cells, in their
/// stored order, each mapped to its pixel rectangle.
pub open spec fn spec_render_seq_pre(cells: Seq<CartesianP>, cam: Rect, dim: u16, gap: u8) -> Seq<
    Rect,
> {
    cells.filter(|p: CartesianP| in_window(cam, pt(p))).map_values(
        |p: CartesianP| spec_cell_rect(cam, dim, gap, pt(p)),
    )
}

/// The draw order: by `x1`, then `y1`, then the remaining corners.
pub open spec fn rect_le(a: Rect, b: Rect) -> bool {
    if a.x1 != b.x1 {
        a.x1 < b.x1
    } else if a.y1 != b.y1 {
        a.y1 < b.y1
    } else if a.x2 != b.x2 {
        a.x2 < b.x2
    } else {
        a.y2 <= b.y2
    }
}

/// The draw order as a relation value.
pub open spec fn rect_leq() -> spec_fn(Rect, Rect) -> bool {
    |a: Rect, b: Rect| rect_le(a, b)
}

/// The draw order is a total ordering on rectangles.
pub proof fn lemma_rect_leq_total()
    ensures
        total_ordering(rect_leq()),
{
    let leq = rect_leq();
    assert forall|a: Rect, b: Rect| #[trigger] leq(a, b) && leq(b, a) implies a == b by {}
    assert forall|a: Rect, b: Rect, c: Rect| #[trigger] leq(a, b) && #[trigger] leq(
        b,
        c,
    ) implies leq(a, c) by {}
    assert forall|a: Rect, b: Rect| true implies #[trigger] leq(a, b) || leq(b, a) by {}
}

/// Render determinism: two rectangle sequences that are both in draw order
/// and hold the same rectangles are the same sequence. With the projector's
/// contract this means repeated calls on one state return identical output.
pub proof fn lemma_render_deterministic(a: Seq<Rect>, b: Seq<Rect>)
    requires
        sorted_by(a, rect_leq()),
        sorted_by(b, rect_leq()),
        a.to_multiset() == b.to_multiset(),
    ensures
        a == b,
{
    lemma_rect_leq_total();
    vstd::seq_lib::lemma_sorted_unique(a, b, rect_leq());
}

/// One step of the unsorted projection: appending a cell appends its
/// rectangle when it is visible and nothing otherwise.
proof fn lemma_render_pre_push(
    cells: Seq<CartesianP>,
    t: Seq<CartesianP>,
    p: CartesianP,
    cam: Rect,
    dim: u16,
    gap: u8,
)
    requires
        t == cells.push(p),
    ensures
        spec_render_seq_pre(t, cam, dim, gap) == (if in_window(cam, pt(p)) {
            spec_render_seq_pre(cells, cam, dim, gap).push(spec_cell_rect(cam, dim, gap, pt(p)))
        } else {
            spec_render_seq_pre(cells, cam, dim, gap)
        }),
{
    reveal(Seq::filter);
    let pred = |q: CartesianP| in_window(cam, pt(q));
    let f = |q: CartesianP| spec_cell_rect(cam, dim, gap, pt(q));
    assert(t.drop_last() =~= cells);
    assert(t.last() == p);
    if pred(p) {
        assert(t.filter(pred) == cells.filter(pred).push(p));
        assert(t.filter(pred).map_values(f) =~= cells.filter(pred).map_values(f).push(f(p)));
    } else {
        assert(t.filter(pred) == cells.filter(pred));
    }
}

/// Compares two rectangles in draw order.
fn rect_le_exec(a: &Rect, b: &Rect) -> (r: bool)
    ensures
        r == rect_le(*a, *b),
{
    if a.x1 != b.x1 {
        a.x1 < b.x1
    } else if a.y1 != b.y1 {
        a.y1 < b.y1
    } else if a.x2 != b.x2 {
        a.x2 < b.x2
    } else {
        a.y2 <= b.y2
    }
}

/// Sorts rectangles into draw order by selection: repeatedly move a least
/// remaining rectangle to the output.
fn sort_rects(v: Vec<Rect>) -> (out: Vec<Rect>)
    ensures
        sorted_by(out@, rect_leq()),
        out@.to_multiset() == v@.to_multiset(),
{
    broadcast use vstd::seq_lib::group_to_multiset_ensures;

    let mut rest = v;
    let mut out: Vec<Rect> = Vec::new();
    proof {
        assert(out@.to_multiset().add(rest@.to_multiset()) =~= v@.to_multiset());
    }
    while rest.len() > 0
        invariant
            out@.to_multiset().add(rest@.to_multiset()) == v@.to_multiset(),
            sorted_by(out@, rect_leq()),
            forall|t: int, w: int|
                0 <= t < out@.len() && 0 <= w < rest@.len() ==> rect_le(
                    #[trigger] out@[t],
                    #[trigger] rest@[w],
                ),
        decreases rest@.len(),
    {
        let mut mi: usize = 0;
        let mut j: usize = 1;
        while j < rest.len()
            invariant
                0 <= mi < j <= rest@.len(),
                rest@.len() >= 1,
                forall|t: int| 0 <= t < j ==> rect_le(rest@[mi as int], #[trigger] rest@[t]),
            decreases rest@.len() - j,
        {
            if !rect_le_exec(&rest[mi], &rest[j]) {
                proof {
                    assert forall|t: int| 0 <= t < j + 1 implies rect_le(
                        rest@[j as int],
                        #[trigger] rest@[t],
                    ) by {
                        assert(rect_le(rest@[j as int], rest@[mi as int]));
                        assert(rect_le(rest@[mi as int], rest@[t]) || t == j);
                    }
                }
                mi = j;
            }
            j = j + 1;
        }
        let ghost pre_rest = rest@;
        let ghost pre_out = out@;
        let x = rest.remove(mi);
        out.push(x);
        proof {
            pre_rest.to_multiset_ensures();
            pre_out.to_multiset_ensures();
            assert(x == pre_rest[mi as int]);
            assert(pre_rest.contains(x));
            assert(rest@ == pre_rest.remove(mi as int));
            assert(pre_rest.remove(mi as int).to_multiset() =~= pre_rest.to_multiset().remove(
                pre_rest[mi as int],
            ));
            assert(out@ == pre_out.push(x));
            assert(pre_out.push(x).to_multiset() =~= pre_out.to_multiset().insert(x));
            assert(rest@.to_multiset() =~= pre_rest.to_multiset().remove(x));
            assert(out@.to_multiset() =~= pre_out.to_multiset().insert(x));
            assert(out@.to_multiset().add(rest@.to_multiset()) =~= pre_out.to_multiset().add(
                pre_rest.to_multiset(),
            ));
            assert forall|t: int, w: int|
                0 <= t < out@.len() && 0 <= w < rest@.len() implies rect_le(
                #[trigger] out@[t],
                #[trigger] rest@[w],
            ) by {
                let w0 = if w < mi {
                    w
                } else {
                    w + 1
                };
                assert(rest@[w] == pre_rest[w0]);
                if t < pre_out.len() {
                    assert(out@[t] == pre_out[t]);
                } else {
                    assert(out@[t] == x);
                    assert(rect_le(pre_rest[mi as int], pre_rest[w0]));
                }
            }
            assert forall|t: int, w: int| 0 <= t < w < out@.len() implies rect_le(
                #[trigger] out@[t],
                #[trigger] out@[w],
            ) by {
                if w < pre_out.len() {
                    assert(out@[t] == pre_out[t] && out@[w] == pre_out[w]);
                    assert(rect_leq()(pre_out[t], pre_out[w]));
                } else {
                    assert(out@[w] == x);
                    assert(out@[t] == pre_out[t]);
                    assert(rect_le(pre_out[t], pre_rest[mi as int]));
                }
            }
        }
    }
    proof {
        assert(out@.to_multiset() =~= v@.to_multiset());
    }
    out
}

/// Projects the universe's visible live cells to pixel rectangles: one
/// square of `dim / length` pixels per cell inside the camera, inset by
/// `gap`, sorted by `x1` then `y1` for a deterministic draw order.
pub fn get_values_to_render(u: &Universe, s: &RenderSettings) -> (out: Vec<Rect>)
    requires
        s.cam.x1 <= s.cam.x2,
        s.cam.y1 <= s.cam.y2,
        rect_in_range(s.cam),
    ensures
        out@.to_multiset() == spec_render_seq_pre(u.value@, s.cam, s.dim, s.gap).to_multiset(),
        sorted_by(out@, rect_leq()),
{
    let length = get_length(&s.cam);
    let center = get_center(&s.cam);
    let half = length / 2;
    let sub = get_subdivision_size(&s.cam, s.dim);
    let lo_x = center.x - half;
    let hi_x = lo_x + (length - 1);
    let hi_y = center.y + half;
    let lo_y = hi_y - (length - 1);
    proof {
        if sub > 0 {
            vstd::arithmetic::div_mod::lemma_fundamental_div_mod(
                s.dim as int,
                spec_length(s.cam),
            );
            vstd::arithmetic::div_mod::lemma_mod_bound(s.dim as int, spec_length(s.cam));
            assert(length <= s.dim) by (nonlinear_arith)
                requires
                    s.dim as int == spec_length(s.cam) * spec_subdivision_size(s.cam, s.dim)
                        + s.dim as int % spec_length(s.cam),
                    s.dim as int % spec_length(s.cam) >= 0,
                    spec_subdivision_size(s.cam, s.dim) >= 1,
                    length == spec_length(s.cam),
                    length >= 1,
            ;
        }
    }
    let n = u.value.len();
    let mut picked: Vec<Rect> = Vec::new();
    let mut i: usize = 0;
    proof {
        reveal(Seq::filter);
        assert(u.value@.subrange(0, 0) =~= Seq::<CartesianP>::empty());
        assert(picked@ =~= spec_render_seq_pre(u.value@.subrange(0, 0), s.cam, s.dim, s.gap));
    }
    while i < n
        invariant
            0 <= i <= n,
            n == u.value@.len(),
            length as int == spec_length(s.cam),
            (center.x as int, center.y as int) == spec_center(s.cam),
            half as int == spec_length(s.cam) / 2,
            sub as int == spec_subdivision_size(s.cam, s.dim),
            sub > 0 ==> length <= s.dim,
            rect_in_range(s.cam),
            s.cam.x1 <= s.cam.x2,
            s.cam.y1 <= s.cam.y2,
            lo_x == center.x - half,
            hi_x == lo_x + (length - 1),
            hi_y == center.y + half,
            lo_y == hi_y - (length - 1),
            picked@ == spec_render_seq_pre(u.value@.subrange(0, i as int), s.cam, s.dim, s.gap),
        decreases n - i,
    {
        let p = u.value[i];
        proof {
            assert(u.value@.subrange(0, i + 1) =~= u.value@.subrange(0, i as int).push(
                u.value@[i as int],
            ));
            lemma_render_pre_push(
                u.value@.subrange(0, i as int),
                u.value@.subrange(0, i + 1),
                p,
                s.cam,
                s.dim,
                s.gap,
            );
        }
        if p.x >= lo_x && p.x <= hi_x && p.y >= lo_y && p.y <= hi_y {
            proof {
                assert(in_window(s.cam, pt(p)));
            }
            let col = half + (p.x - center.x);
            let row = half - (p.y - center.y);
            proof {
                assert(0 <= col < length);
                assert(0 <= row < length);
                assert(i64::MIN <= col * (sub as i64) <= i64::MAX) by (nonlinear_arith)
                    requires
                        0 <= col,
                        0 <= sub <= 0xffff,
                        sub > 0 ==> col < 0x10000,
                ;
                assert(i64::MIN <= row * (sub as i64) <= i64::MAX) by (nonlinear_arith)
                    requires
                        0 <= row,
                        0 <= sub <= 0xffff,
                        sub > 0 ==> row < 0x10000,
                ;
                assert(col * (sub as i64) <= 0xffffffff) by (nonlinear_arith)
                    requires
                        0 <= col,
                        0 <= sub <= 0xffff,
                        sub > 0 ==> col < 0x10000,
                ;
                assert(row * (sub as i64) <= 0xffffffff) by (nonlinear_arith)
                    requires
                        0 <= row,
                        0 <= sub <= 0xffff,
                        sub > 0 ==> row < 0x10000,
                ;
            }
            let x = col * (sub as i64) + (s.gap as i64);
            let y = row * (sub as i64) + (s.gap as i64);
            let size = (sub as i64) - 2 * (s.gap as i64);
            let r = Rect { x1: x, y1: y, x2: x + size, y2: y + size };
            proof {
                assert(r == spec_cell_rect(s.cam, s.dim, s.gap, pt(p)));
            }
            picked.push(r);
        } else {
            proof {
                assert(!in_window(s.cam, pt(p)));
            }
        }
        i = i + 1;
    }
    proof {
        assert(u.value@.subrange(0, n as int) =~= u.value@);
    }
    sort_rects(picked)
}

} // verus!
