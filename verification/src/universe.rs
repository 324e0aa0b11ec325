//! The sparse universe of live cells: its model, constructors, parsing,
//! generation advance, toggling and camera auto-fit.
//!
//! Only `Alive` cells are stored; any point absent from `value` is `Dead`.
//! The mathematical model of a universe is the set of its live points, as
//! pairs of unbounded integers, together with its age.

use vstd::prelude::*;
use crate::cell::{self, State};
use crate::cartesian_plane::absolute_to_relative;
use crate::coordinate::{
    lemma_div_magnitude_le, matrix_to_cartesian, spec_matrix_to_cartesian, CartesianP, MatrixP,
};
use crate::rect::{
    get_center, get_length, get_subdivision_size, spec_center, spec_length,
    spec_subdivision_size, Rect,
};

verus! {

/// The pair of unbounded integers behind a point.
pub open spec fn pt(p: CartesianP) -> (int, int) {
    (p.x as int, p.y as int)
}

/// The set of points that a sequence of cells holds.
pub open spec fn live_of(s: Seq<CartesianP>) -> Set<(int, int)> {
    Set::new(|q: (int, int)| exists|i: int| 0 <= i < s.len() && pt(#[trigger] s[i]) == q)
}

/// No point occurs twice in `s`.
pub open spec fn distinct_points(s: Seq<CartesianP>) -> bool {
    forall|i: int, j: int| 0 <= i < j < s.len() ==> s[i] != s[j]
}

/// The sparse set of live cells plus the generation counter.
#[derive(Debug, Clone)]
pub struct Universe {
    pub value: Vec<CartesianP>,
    pub age: u64,
}

impl Universe {
    /// The set of live points: the universe's mathematical model.
    pub open spec fn live(self) -> Set<(int, int)> {
        live_of(self.value@)
    }

    /// The stored cells hold no duplicates, so removal by value is exact.
    pub open spec fn wf(self) -> bool {
        distinct_points(self.value@)
    }

    /// Builds a universe of the given live cells at age 0; duplicates in
    /// the input collapse to one cell.
    pub fn from(value: Vec<CartesianP>) -> (u: Universe)
        ensures
            u.live() == live_of(value@),
            u.age == 0,
            u.wf(),
    {
        let mut cells: Vec<CartesianP> = Vec::new();
        let n = value.len();
        let mut i: usize = 0;
        while i < n
            invariant
                0 <= i <= n,
                n == value@.len(),
                distinct_points(cells@),
                live_of(cells@) == live_of(value@.subrange(0, i as int)),
            decreases n - i,
        {
            let p = value[i];
            let ghost pre = cells@;
            if !contains_point(&cells, &p) {
                cells.push(p);
                proof {
                    assert(cells@.drop_last() =~= pre);
                    lemma_live_of_push_general(pre, cells@, p);
                }
            }
            proof {
                assert(value@.subrange(0, i + 1).drop_last() =~= value@.subrange(0, i as int));
                assert(value@.subrange(0, i + 1).last() == value@[i as int]);
                lemma_live_of_push_general(
                    value@.subrange(0, i as int),
                    value@.subrange(0, i + 1),
                    value@[i as int],
                );
                assert(live_of(cells@) =~= live_of(value@.subrange(0, i + 1)));
            }
            i = i + 1;
        }
        proof {
            assert(value@.subrange(0, n as int) =~= value@);
        }
        Universe { value: cells, age: 0 }
    }
}

/// Appending one cell adds exactly its point to the live set.
proof fn lemma_live_of_push_general(s: Seq<CartesianP>, t: Seq<CartesianP>, p: CartesianP)
    requires
        t.len() == s.len() + 1,
        t.drop_last() == s,
        t.last() == p,
    ensures
        live_of(t) == live_of(s).insert(pt(p)),
{
    assert forall|q: (int, int)| live_of(t).contains(q) implies live_of(s).insert(pt(p)).contains(
        q,
    ) by {
        let i = choose|i: int| 0 <= i < t.len() && pt(#[trigger] t[i]) == q;
        if i < s.len() {
            assert(s[i] == t[i]);
            assert(live_of(s).contains(q));
        } else {
            assert(t[i] == p);
        }
    }
    assert forall|q: (int, int)| live_of(s).insert(pt(p)).contains(q) implies live_of(t).contains(
        q,
    ) by {
        if live_of(s).contains(q) {
            let i = choose|i: int| 0 <= i < s.len() && pt(#[trigger] s[i]) == q;
            assert(t[i] == s[i]);
            assert(pt(t[i]) == q);
        } else {
            assert(pt(t[t.len() - 1]) == q);
        }
    }
    assert(live_of(t) =~= live_of(s).insert(pt(p)));
}

/// Whether `v` holds the point `p`.
pub fn contains_point(v: &Vec<CartesianP>, p: &CartesianP) -> (r: bool)
    ensures
        r == live_of(v@).contains(pt(*p)),
{
    let n = v.len();
    let mut i: usize = 0;
    while i < n
        invariant
            0 <= i <= n,
            n == v@.len(),
            forall|j: int| 0 <= j < i ==> v@[j] != *p,
        decreases n - i,
    {
        if v[i].x == p.x && v[i].y == p.y {
            proof {
                assert(pt(v@[i as int]) == pt(*p));
            }
            return true;
        }
        i = i + 1;
    }
    proof {
        assert forall|j: int| 0 <= j < v@.len() implies pt(#[trigger] v@[j]) != pt(*p) by {
            assert(v@[j] != *p);
        }
    }
    false
}

impl Default for Universe {
    /// The empty universe at age 0.
    fn default() -> (u: Universe)
        ensures
            u.live() == Set::<(int, int)>::empty(),
            u.age == 0,
            u.wf(),
    {
        let u = Universe { value: Vec::new(), age: 0 };
        proof {
            assert(u.live() =~= Set::<(int, int)>::empty());
        }
        u
    }
}

impl vstd::std_specs::cmp::PartialEqSpecImpl for Universe {
    open spec fn obeys_eq_spec() -> bool {
        true
    }

    open spec fn eq_spec(&self, other: &Universe) -> bool {
        self.live() == other.live() && self.age == other.age
    }
}

impl PartialEq for Universe {
    /// Two universes are equal when they have the same live points and the
    /// same age, whatever order their cells are stored in.
    fn eq(&self, other: &Universe) -> (r: bool) {
        if self.age != other.age {
            return false;
        }
        let a = contains_all(&self.value, &other.value);
        if !a {
            return false;
        }
        let b = contains_all(&other.value, &self.value);
        if !b {
            return false;
        }
        proof {
            assert(self.live() =~= other.live());
        }
        true
    }
}

/// Whether every point of `v` also occurs in `w`.
fn contains_all(v: &Vec<CartesianP>, w: &Vec<CartesianP>) -> (r: bool)
    ensures
        r == forall|i: int| 0 <= i < v@.len() ==> live_of(w@).contains(pt(#[trigger] v@[i])),
{
    let n = v.len();
    let mut i: usize = 0;
    while i < n
        invariant
            0 <= i <= n,
            n == v@.len(),
            forall|j: int| 0 <= j < i ==> live_of(w@).contains(pt(#[trigger] v@[j])),
        decreases n - i,
    {
        let p = v[i];
        if !contains_point(w, &p) {
            return false;
        }
        i = i + 1;
    }
    true
}

/// The state of the point `p`: `Alive` exactly when it is stored.
pub fn get_value(u: &Universe, p: &CartesianP) -> (r: State)
    ensures
        r == (if u.live().contains(pt(*p)) {
            State::Alive
        } else {
            State::Dead
        }),
{
    if contains_point(&u.value, p) {
        State::Alive
    } else {
        State::Dead
    }
}

/// Removes the point `p` from `v`, which holds it exactly once.
fn remove_point(v: &mut Vec<CartesianP>, p: &CartesianP)
    requires
        distinct_points(old(v)@),
        live_of(old(v)@).contains(pt(*p)),
    ensures
        distinct_points(final(v)@),
        live_of(final(v)@) == live_of(old(v)@).remove(pt(*p)),
{
    let n = v.len();
    let mut i: usize = 0;
    while i < n
        invariant
            0 <= i <= n,
            n == v@.len(),
            v@ == old(v)@,
            distinct_points(v@),
            live_of(v@).contains(pt(*p)),
            forall|j: int| 0 <= j < i ==> v@[j] != *p,
        decreases n - i,
    {
        if v[i].x == p.x && v[i].y == p.y {
            let ghost pre = v@;
            let ghost idx = i as int;
            v.remove(i);
            proof {
                assert(pre[idx] == *p);
                assert(v@ =~= pre.subrange(0, idx) + pre.subrange(idx + 1, pre.len() as int));
                assert forall|a: int, b: int| 0 <= a < b < v@.len() implies v@[a] != v@[b] by {
                    let a0 = if a < idx { a } else { a + 1 };
                    let b0 = if b < idx { b } else { b + 1 };
                    assert(v@[a] == pre[a0]);
                    assert(v@[b] == pre[b0]);
                }
                assert forall|q: (int, int)| live_of(v@).contains(q) implies live_of(
                    pre,
                ).remove(pt(*p)).contains(q) by {
                    let t = choose|t: int| 0 <= t < v@.len() && pt(#[trigger] v@[t]) == q;
                    let t0 = if t < idx { t } else { t + 1 };
                    assert(v@[t] == pre[t0]);
                    assert(live_of(pre).contains(q));
                    if q == pt(*p) {
                        assert(pre[t0] != *p);
                        assert(pre[t0].x == p.x && pre[t0].y == p.y);
                        assert(false);
                    }
                }
                assert forall|q: (int, int)| live_of(pre).remove(pt(*p)).contains(q) implies live_of(
                    v@,
                ).contains(q) by {
                    let t0 = choose|t: int| 0 <= t < pre.len() && pt(#[trigger] pre[t]) == q;
                    assert(pre[t0] != *p || q == pt(*p));
                    if pre[t0] == *p {
                        assert(false);
                    }
                    assert(t0 != idx);
                    let t = if t0 < idx { t0 } else { t0 - 1 };
                    assert(v@[t] == pre[t0]);
                }
                assert(live_of(v@) =~= live_of(pre).remove(pt(*p)));
            }
            return;
        }
        i = i + 1;
    }
    proof {
        let t = choose|t: int| 0 <= t < v@.len() && pt(#[trigger] v@[t]) == pt(*p);
        assert(v@[t] != *p);
        assert(v@[t].x == p.x && v@[t].y == p.y);
        assert(false);
    }
}

/// A live set with the point `q` flipped: removed when present, inserted
/// when absent.
pub open spec fn spec_toggled(live: Set<(int, int)>, q: (int, int)) -> Set<(int, int)> {
    if live.contains(q) {
        live.remove(q)
    } else {
        live.insert(q)
    }
}

/// Flips one point: a dead cell is inserted, a live one removed; the age
/// and every other cell stay as they were.
pub fn toggle_cell(u: &mut Universe, p: CartesianP)
    requires
        old(u).wf(),
    ensures
        final(u).wf(),
        final(u).age == old(u).age,
        final(u).live() == spec_toggled(old(u).live(), pt(p)),
{
    let s = get_value(u, &p);
    let flipped = cell::toggle(&s);
    match flipped {
        State::Dead => {
            remove_point(&mut u.value, &p);
        },
        State::Alive => {
            push_unique(&mut u.value, p);
        },
    }
}

/// `q` lies within Chebyshev distance 1 of `c` (the 3-by-3 block around
/// `c`, `c` itself included).
pub open spec fn near(c: (int, int), q: (int, int)) -> bool {
    c.0 - 1 <= q.0 <= c.0 + 1 && c.1 - 1 <= q.1 <= c.1 + 1
}

/// The 3-by-3 block of points around `c`.
pub open spec fn nbhd(c: (int, int)) -> Set<(int, int)> {
    Set::new(|q: (int, int)| near(c, q))
}

/// The candidate set of a generation: every live cell together with its
/// eight neighbors. Only these points can be alive next.
pub open spec fn spec_candidates(live: Set<(int, int)>) -> Set<(int, int)> {
    Set::new(|q: (int, int)| exists|r: (int, int)| #[trigger] live.contains(r) && near(r, q))
}

/// The state of a point in a live set.
pub open spec fn spec_state_of(live: Set<(int, int)>, q: (int, int)) -> State {
    if live.contains(q) {
        State::Alive
    } else {
        State::Dead
    }
}

/// Whether `q` is alive in the generation after `live`, by Conway's rule.
pub open spec fn spec_step_alive(live: Set<(int, int)>, q: (int, int)) -> bool {
    cell::spec_cell_iterate(
        spec_state_of(live, q),
        crate::neighbor::spec_live_neighbors(live, q.0, q.1),
    ) == State::Alive
}

/// The next generation of a live set: Conway's rule applied at every point
/// of the plane.
pub open spec fn spec_next(live: Set<(int, int)>) -> Set<(int, int)> {
    Set::new(|q: (int, int)| spec_step_alive(live, q))
}

/// Every live coordinate is far enough from the i64 limits for one
/// generation's neighborhood arithmetic.
pub open spec fn iterable(live: Set<(int, int)>) -> bool {
    forall|q: (int, int)| #[trigger] live.contains(q) ==> i64::MIN + 2 <= q.0 <= i64::MAX - 2
        && i64::MIN + 2 <= q.1 <= i64::MAX - 2
}

/// Appends the point `q` unless `v` already holds it.
fn push_unique(v: &mut Vec<CartesianP>, q: CartesianP)
    requires
        distinct_points(old(v)@),
    ensures
        distinct_points(final(v)@),
        live_of(final(v)@) == live_of(old(v)@).insert(pt(q)),
        final(v)@ == (if live_of(old(v)@).contains(pt(q)) {
            old(v)@
        } else {
            old(v)@.push(q)
        }),
{
    if !contains_point(v, &q) {
        let ghost pre = v@;
        v.push(q);
        proof {
            assert(v@.drop_last() =~= pre);
            lemma_live_of_push_general(pre, v@, q);
            assert forall|a: int, b: int| 0 <= a < b < v@.len() implies v@[a] != v@[b] by {
                if b == v@.len() - 1 {
                    assert(v@[a] == pre[a]);
                    if v@[a] == q {
                        assert(pt(pre[a]) == pt(q));
                        assert(live_of(pre).contains(pt(q)));
                        assert(false);
                    }
                } else {
                    assert(v@[a] == pre[a] && v@[b] == pre[b]);
                }
            }
        }
    } else {
        proof {
            assert(live_of(v@).insert(pt(q)) =~= live_of(v@));
        }
    }
}

/// Appends the 3-by-3 neighborhood of `p`, skipping points already held.
fn push_neighborhood(v: &mut Vec<CartesianP>, p: &CartesianP)
    requires
        distinct_points(old(v)@),
        i64::MIN + 2 <= p.x <= i64::MAX - 2,
        i64::MIN + 2 <= p.y <= i64::MAX - 2,
    ensures
        distinct_points(final(v)@),
        live_of(final(v)@) == live_of(old(v)@) + nbhd(pt(*p)),
{
    push_unique(v, CartesianP { x: p.x - 1, y: p.y + 1 });
    push_unique(v, CartesianP { x: p.x, y: p.y + 1 });
    push_unique(v, CartesianP { x: p.x + 1, y: p.y + 1 });
    push_unique(v, CartesianP { x: p.x - 1, y: p.y });
    push_unique(v, CartesianP { x: p.x, y: p.y });
    push_unique(v, CartesianP { x: p.x + 1, y: p.y });
    push_unique(v, CartesianP { x: p.x - 1, y: p.y - 1 });
    push_unique(v, CartesianP { x: p.x, y: p.y - 1 });
    push_unique(v, CartesianP { x: p.x + 1, y: p.y - 1 });
    proof {
        assert forall|q: (int, int)| near(pt(*p), q) implies (q.0 == p.x - 1 || q.0 == p.x || q.0
            == p.x + 1) && (q.1 == p.y - 1 || q.1 == p.y || q.1 == p.y + 1) by {}
        assert(live_of(v@) =~= live_of(old(v)@) + nbhd(pt(*p)));
    }
}

/// Advances the universe one generation: the live set becomes its
/// `spec_next` and the age grows by exactly 1. The work is bounded by the
/// candidate set, never by the area of the grid.
pub fn iterate(u: &mut Universe)
    requires
        iterable(old(u).live()),
        old(u).age < u64::MAX,
    ensures
        final(u).live() == spec_next(old(u).live()),
        final(u).age == old(u).age + 1,
        final(u).wf(),
{
    let ghost live0 = u.live();
    let n = u.value.len();
    let mut candidates: Vec<CartesianP> = Vec::new();
    let mut i: usize = 0;
    proof {
        assert(live_of(candidates@) =~= live_of(u.value@.subrange(0, 0)));
        assert(live_of(candidates@) =~= spec_candidates(live_of(u.value@.subrange(0, 0))));
    }
    while i < n
        invariant
            0 <= i <= n,
            n == u.value@.len(),
            u.value@ == old(u).value@,
            u.age == old(u).age,
            iterable(live0),
            live0 == live_of(u.value@),
            distinct_points(candidates@),
            live_of(candidates@) == spec_candidates(live_of(u.value@.subrange(0, i as int))),
        decreases n - i,
    {
        let p = u.value[i];
        proof {
            assert(pt(u.value@[i as int]) == pt(p));
            assert(live0.contains(pt(p)));
        }
        let ghost pre = candidates@;
        let ghost prefix = live_of(u.value@.subrange(0, i as int));
        push_neighborhood(&mut candidates, &p);
        proof {
            assert(u.value@.subrange(0, i + 1).drop_last() =~= u.value@.subrange(0, i as int));
            assert(u.value@.subrange(0, i + 1).last() == u.value@[i as int]);
            lemma_live_of_push_general(
                u.value@.subrange(0, i as int),
                u.value@.subrange(0, i + 1),
                u.value@[i as int],
            );
            let bigger = live_of(u.value@.subrange(0, i + 1));
            assert forall|q: (int, int)| spec_candidates(bigger).contains(q) implies live_of(
                candidates@,
            ).contains(q) by {
                let r = choose|r: (int, int)| #[trigger] bigger.contains(r) && near(r, q);
                if prefix.contains(r) {
                    assert(spec_candidates(prefix).contains(q));
                    assert(live_of(pre).contains(q));
                } else {
                    assert(r == pt(p));
                    assert(nbhd(pt(p)).contains(q));
                }
            }
            assert forall|q: (int, int)| live_of(candidates@).contains(q) implies spec_candidates(
                bigger,
            ).contains(q) by {
                if live_of(pre).contains(q) {
                    let r = choose|r: (int, int)| #[trigger] prefix.contains(r) && near(r, q);
                    assert(bigger.contains(r));
                } else {
                    assert(near(pt(p), q));
                    assert(bigger.contains(pt(p)));
                }
            }
            assert(live_of(candidates@) =~= spec_candidates(bigger));
        }
        i = i + 1;
    }
    proof {
        assert(u.value@.subrange(0, n as int) =~= u.value@);
    }
    let m = candidates.len();
    let mut next: Vec<CartesianP> = Vec::new();
    let mut k: usize = 0;
    while k < m
        invariant
            0 <= k <= m,
            m == candidates@.len(),
            u.value@ == old(u).value@,
            u.age == old(u).age,
            iterable(live0),
            live0 == live_of(u.value@),
            distinct_points(candidates@),
            live_of(candidates@) == spec_candidates(live0),
            distinct_points(next@),
            forall|t: int| 0 <= t < next@.len() ==> spec_step_alive(
                live0,
                pt(#[trigger] next@[t]),
            ),
            forall|t: int| 0 <= t < next@.len() ==> exists|idx: int|
                0 <= idx < k && candidates@[idx] == #[trigger] next@[t],
            forall|t: int|
                0 <= t < k && spec_step_alive(live0, pt(#[trigger] candidates@[t]))
                    ==> live_of(next@).contains(pt(candidates@[t])),
        decreases m - k,
    {
        let c = candidates[k];
        proof {
            assert(pt(candidates@[k as int]) == pt(c));
            assert(live_of(candidates@).contains(pt(c)));
            let r = choose|r: (int, int)| #[trigger] live0.contains(r) && near(r, pt(c));
            assert(i64::MIN + 1 <= pt(c).0 <= i64::MAX - 1);
            assert(i64::MIN + 1 <= pt(c).1 <= i64::MAX - 1);
        }
        let st = get_value(u, &c);
        let cnt = crate::neighbor::number_of_alive_from_model(u, &c);
        let new_state = cell::iterate(st, cnt);
        match new_state {
            State::Alive => {
                proof {
                    assert(spec_step_alive(live0, pt(c)));
                }
                let ghost pre_next = next@;
                push_unique(&mut next, c);
                proof {
                    assert forall|t: int| 0 <= t < next@.len() implies exists|idx: int|
                        0 <= idx < k + 1 && candidates@[idx] == #[trigger] next@[t] by {
                        if t < pre_next.len() && next@.len() == pre_next.len() + 1 {
                            assert(next@[t] == pre_next[t]);
                            let idx = choose|idx: int|
                                0 <= idx < k && candidates@[idx] == pre_next[t];
                            assert(candidates@[idx] == next@[t]);
                        } else if next@.len() == pre_next.len() + 1 {
                            assert(next@[t] == c);
                            assert(candidates@[k as int] == next@[t]);
                        } else {
                            let idx = choose|idx: int|
                                0 <= idx < k && candidates@[idx] == next@[t];
                            assert(candidates@[idx] == next@[t]);
                        }
                    }
                }
            },
            State::Dead => {
                proof {
                    assert(!spec_step_alive(live0, pt(c)));
                }
            },
        }
        k = k + 1;
    }
    proof {
        assert forall|q: (int, int)| spec_next(live0).contains(q) implies live_of(
            next@,
        ).contains(q) by {
            assert(spec_step_alive(live0, q));
            if live0.contains(q) {
                assert(near(q, q));
                assert(spec_candidates(live0).contains(q));
            } else {
                let x = q.0;
                let y = q.1;
                if live0.contains((x - 1, y + 1)) {
                    assert(near((x - 1, y + 1), q));
                    assert(spec_candidates(live0).contains(q));
                } else if live0.contains((x, y + 1)) {
                    assert(near((x, y + 1), q));
                    assert(spec_candidates(live0).contains(q));
                } else if live0.contains((x + 1, y + 1)) {
                    assert(near((x + 1, y + 1), q));
                    assert(spec_candidates(live0).contains(q));
                } else if live0.contains((x - 1, y)) {
                    assert(near((x - 1, y), q));
                    assert(spec_candidates(live0).contains(q));
                } else if live0.contains((x + 1, y)) {
                    assert(near((x + 1, y), q));
                    assert(spec_candidates(live0).contains(q));
                } else if live0.contains((x - 1, y - 1)) {
                    assert(near((x - 1, y - 1), q));
                    assert(spec_candidates(live0).contains(q));
                } else if live0.contains((x, y - 1)) {
                    assert(near((x, y - 1), q));
                    assert(spec_candidates(live0).contains(q));
                } else if live0.contains((x + 1, y - 1)) {
                    assert(near((x + 1, y - 1), q));
                    assert(spec_candidates(live0).contains(q));
                } else {
                    assert(crate::neighbor::spec_live_neighbors(live0, x, y) == 0);
                    assert(false);
                }
            }
            let t = choose|t: int|
                0 <= t < candidates@.len() && pt(#[trigger] candidates@[t]) == q;
            assert(live_of(next@).contains(pt(candidates@[t])));
        }
        assert forall|q: (int, int)| live_of(next@).contains(q) implies spec_next(
            live0,
        ).contains(q) by {
            let t = choose|t: int| 0 <= t < next@.len() && pt(#[trigger] next@[t]) == q;
            assert(spec_step_alive(live0, pt(next@[t])));
        }
        assert(live_of(next@) =~= spec_next(live0));
    }
    u.age = u.age + 1;
    u.value = next;
}


/// The glyph of a live cell in the text grid format.
pub const ALIVE_GLYPH: char = '\u{2b1c}';

/// The glyph of a dead cell in the text grid format.
pub const DEAD_GLYPH: char = '\u{2b1b}';

/// The grid text uses a glyph outside the two recognized symbols.
#[derive(Debug, PartialEq, Eq, Structural, Clone, Copy)]
pub struct InvalidCharacterError;

/// The grid text is not square, or its rows differ in length.
#[derive(Debug, PartialEq, Eq, Structural, Clone, Copy)]
pub struct InvalidLengthError;

/// Why a text grid was rejected.
#[derive(Debug, PartialEq, Eq, Structural, Clone, Copy)]
pub enum FromStringError {
    InvalidCharacter(InvalidCharacterError),
    InvalidLength(InvalidLengthError),
}

/// The rows of text as sequences of characters.
pub open spec fn rows_view(rows: Seq<String>) -> Seq<Seq<char>> {
    rows.map_values(|r: String| r@)
}

/// Every character of the grid is one of the two recognized glyphs.
pub open spec fn grid_chars_ok(g: Seq<Seq<char>>) -> bool {
    forall|r: int, c: int|
        0 <= r < g.len() && 0 <= c < g[r].len() ==> (#[trigger] g[r][c] == ALIVE_GLYPH || g[r][c]
            == DEAD_GLYPH)
}

/// Every row is as long as the grid has rows.
pub open spec fn grid_square(g: Seq<Seq<char>>) -> bool {
    forall|r: int| 0 <= r < g.len() ==> #[trigger] g[r].len() == g.len()
}

/// The live points of a square grid, scanned up to row `r`, column `c` in
/// row-major order; `spec_grid_live` is the whole grid.
pub open spec fn grid_live_upto(g: Seq<Seq<char>>, r: int, c: int) -> Set<(int, int)> {
    Set::new(
        |q: (int, int)|
            exists|rr: int, cc: int|
                0 <= rr < g.len() && 0 <= cc < g.len() && (rr < r || (rr == r && cc < c)) && (
                #[trigger] g[rr][cc]) == ALIVE_GLYPH && q == spec_matrix_to_cartesian(
                    rr,
                    cc,
                    g.len() as int,
                ),
    )
}

/// The live points of a square grid: cell `(r, c)` maps to the world point
/// `(-len/2 + c, len/2 - r)`.
pub open spec fn spec_grid_live(g: Seq<Seq<char>>) -> Set<(int, int)> {
    grid_live_upto(g, g.len() as int, 0)
}

/// Parses a square block of glyph rows into a universe at age 0.
///
/// Any glyph outside the two recognized ones is an `InvalidCharacter`
/// error; rows of unequal length, or a row count different from the column
/// count, are an `InvalidLength` error, in that order of checks.
pub fn from_string(as_str: Vec<String>) -> (r: Result<Universe, FromStringError>)
    requires
        1 <= as_str@.len() <= 0x40000000,
    ensures
        !grid_chars_ok(rows_view(as_str@)) ==> r == Err::<Universe, FromStringError>(
            FromStringError::InvalidCharacter(InvalidCharacterError),
        ),
        grid_chars_ok(rows_view(as_str@)) && !grid_square(rows_view(as_str@)) ==> r == Err::<
            Universe,
            FromStringError,
        >(FromStringError::InvalidLength(InvalidLengthError)),
        grid_chars_ok(rows_view(as_str@)) && grid_square(rows_view(as_str@)) ==> (r matches Ok(u)
            && u.live() == spec_grid_live(rows_view(as_str@)) && u.age == 0 && u.wf()),
{
    let ghost g = rows_view(as_str@);
    let n = as_str.len();
    proof {
        assert(g.len() == n);
    }
    // first: only the two glyphs may appear anywhere
    let mut r: usize = 0;
    while r < n
        invariant
            0 <= r <= n,
            n == as_str@.len(),
            g == rows_view(as_str@),
            g.len() == n,
            forall|rr: int, cc: int|
                0 <= rr < r && 0 <= cc < g[rr].len() ==> (#[trigger] g[rr][cc] == ALIVE_GLYPH
                    || g[rr][cc] == DEAD_GLYPH),
        decreases n - r,
    {
        let row_len = as_str[r].as_str().unicode_len();
        proof {
            assert(g[r as int] == as_str@[r as int]@);
        }
        let mut c: usize = 0;
        while c < row_len
            invariant
                0 <= c <= row_len,
                0 <= r < n,
                n == as_str@.len(),
                g == rows_view(as_str@),
                g.len() == n,
                g[r as int] == as_str@[r as int]@,
                row_len == g[r as int].len(),
                forall|cc: int|
                    0 <= cc < c ==> (#[trigger] g[r as int][cc] == ALIVE_GLYPH || g[r as int][cc]
                        == DEAD_GLYPH),
                forall|rr: int, cc: int|
                    0 <= rr < r && 0 <= cc < g[rr].len() ==> (#[trigger] g[rr][cc] == ALIVE_GLYPH
                        || g[rr][cc] == DEAD_GLYPH),
            decreases row_len - c,
        {
            let ch = as_str[r].as_str().get_char(c);
            if ch != ALIVE_GLYPH && ch != DEAD_GLYPH {
                return Err(FromStringError::InvalidCharacter(InvalidCharacterError));
            }
            c = c + 1;
        }
        r = r + 1;
    }
    // second: the grid must be square with uniform rows
    let mut r: usize = 0;
    while r < n
        invariant
            0 <= r <= n,
            n == as_str@.len(),
            g == rows_view(as_str@),
            g.len() == n,
            grid_chars_ok(g),
            forall|rr: int| 0 <= rr < r ==> #[trigger] g[rr].len() == n,
        decreases n - r,
    {
        proof {
            assert(g[r as int] == as_str@[r as int]@);
        }
        if as_str[r].as_str().unicode_len() != n {
            return Err(FromStringError::InvalidLength(InvalidLengthError));
        }
        r = r + 1;
    }
    // third: collect the live cells in row-major order
    let length = n as i64;
    let mut cells: Vec<CartesianP> = Vec::new();
    let mut r: usize = 0;
    proof {
        assert(live_of(cells@) =~= grid_live_upto(g, 0, 0));
    }
    while r < n
        invariant
            0 <= r <= n,
            n == as_str@.len(),
            1 <= n <= 0x40000000,
            length == n as i64,
            g == rows_view(as_str@),
            g.len() == n,
            grid_chars_ok(g),
            grid_square(g),
            live_of(cells@) == grid_live_upto(g, r as int, 0),
        decreases n - r,
    {
        proof {
            assert(g[r as int] == as_str@[r as int]@);
        }
        let mut c: usize = 0;
        while c < n
            invariant
                0 <= c <= n,
                0 <= r < n,
                n == as_str@.len(),
                1 <= n <= 0x40000000,
                length == n as i64,
                g == rows_view(as_str@),
                g.len() == n,
                g[r as int] == as_str@[r as int]@,
                grid_chars_ok(g),
                grid_square(g),
                live_of(cells@) == grid_live_upto(g, r as int, c as int),
            decreases n - c,
        {
            let ghost pre = cells@;
            let ch = as_str[r].as_str().get_char(c);
            if ch == ALIVE_GLYPH {
                let p = matrix_to_cartesian(
                    MatrixP { row: r as i64, col: c as i64 },
                    length,
                );
                cells.push(p);
                proof {
                    assert(cells@.drop_last() =~= pre);
                    lemma_live_of_push_general(pre, cells@, p);
                }
            }
            proof {
                let before = grid_live_upto(g, r as int, c as int);
                let after = grid_live_upto(g, r as int, c + 1);
                assert forall|q: (int, int)| after.contains(q) implies live_of(
                    cells@,
                ).contains(q) by {
                    let (rr, cc) = choose|rr: int, cc: int|
                        0 <= rr < g.len() && 0 <= cc < g.len() && (rr < r || (rr == r && cc < c
                            + 1)) && (#[trigger] g[rr][cc]) == ALIVE_GLYPH && q
                            == spec_matrix_to_cartesian(rr, cc, g.len() as int);
                    if rr < r || cc < c {
                        assert(before.contains(q));
                        assert(live_of(pre).contains(q));
                    } else {
                        assert(rr == r && cc == c);
                        assert(ch == ALIVE_GLYPH);
                    }
                }
                assert forall|q: (int, int)| live_of(cells@).contains(q) implies after.contains(
                    q,
                ) by {
                    if live_of(pre).contains(q) {
                        assert(before.contains(q));
                        let (rr, cc) = choose|rr: int, cc: int|
                            0 <= rr < g.len() && 0 <= cc < g.len() && (rr < r || (rr == r && cc
                                < c)) && (#[trigger] g[rr][cc]) == ALIVE_GLYPH && q
                                == spec_matrix_to_cartesian(rr, cc, g.len() as int);
                        assert(after.contains(q));
                    } else {
                        assert(ch == ALIVE_GLYPH);
                        assert(g[r as int][c as int] == ALIVE_GLYPH);
                        assert(q == spec_matrix_to_cartesian(r as int, c as int, g.len() as int));
                        assert(after.contains(q));
                    }
                }
                assert(live_of(cells@) =~= after);
            }
            c = c + 1;
        }
        proof {
            let at_row_end = grid_live_upto(g, r as int, n as int);
            let next_row = grid_live_upto(g, r + 1, 0);
            assert forall|q: (int, int)| at_row_end.contains(q) implies next_row.contains(q) by {
                let (rr, cc) = choose|rr: int, cc: int|
                    0 <= rr < g.len() && 0 <= cc < g.len() && (rr < r || (rr == r && cc < n)) && (
                    #[trigger] g[rr][cc]) == ALIVE_GLYPH && q == spec_matrix_to_cartesian(
                        rr,
                        cc,
                        g.len() as int,
                    );
                assert(rr < r + 1);
            }
            assert forall|q: (int, int)| next_row.contains(q) implies at_row_end.contains(q) by {
                let (rr, cc) = choose|rr: int, cc: int|
                    0 <= rr < g.len() && 0 <= cc < g.len() && rr < r + 1 && (#[trigger] g[rr][cc])
                        == ALIVE_GLYPH && q == spec_matrix_to_cartesian(rr, cc, g.len() as int);
                assert(rr < r || (rr == r && cc < n));
            }
            assert(at_row_end =~= next_row);
        }
        r = r + 1;
    }
    proof {
        assert forall|q: (int, int)| spec_grid_live(g).contains(q) implies grid_live_upto(
            g,
            n as int,
            0,
        ).contains(q) by {}
        assert(grid_live_upto(g, n as int, 0) =~= spec_grid_live(g));
    }
    Ok(Universe::from(cells))
}

/// The auto-fit camera around the bounding box `[minx, maxx] x [miny,
/// maxy]`: the shorter axis is padded to a square (the extra unit goes to
/// the end side), then a margin of 4 cells is added all around.
pub open spec fn spec_fit_camera(minx: int, miny: int, maxx: int, maxy: int) -> (
    int,
    int,
    int,
    int,
) {
    let len_x = maxx - minx + 1;
    let len_y = maxy - miny + 1;
    let ypad = if len_x > len_y {
        let diff = len_x - len_y;
        let ds = diff / 2;
        (miny - ds, maxy + (diff - ds))
    } else {
        (miny, maxy)
    };
    let xpad = if len_y > len_x {
        let diff = len_y - len_x;
        let ds = diff / 2;
        (minx - ds, maxx + (diff - ds))
    } else {
        (minx, maxx)
    };
    (xpad.0 - 4, ypad.0 - 4, xpad.1 + 4, ypad.1 + 4)
}

/// The least x over a live set (the set nonempty, with a least member).
pub open spec fn set_min_x(s: Set<(int, int)>) -> int {
    (choose|q: (int, int)| #[trigger] s.contains(q) && (forall|r: (int, int)|
        #[trigger] s.contains(r) ==> q.0 <= r.0)).0
}

/// The greatest x over a live set.
pub open spec fn set_max_x(s: Set<(int, int)>) -> int {
    (choose|q: (int, int)| #[trigger] s.contains(q) && (forall|r: (int, int)|
        #[trigger] s.contains(r) ==> r.0 <= q.0)).0
}

/// The least y over a live set.
pub open spec fn set_min_y(s: Set<(int, int)>) -> int {
    (choose|q: (int, int)| #[trigger] s.contains(q) && (forall|r: (int, int)|
        #[trigger] s.contains(r) ==> q.1 <= r.1)).1
}

/// The greatest y over a live set.
pub open spec fn set_max_y(s: Set<(int, int)>) -> int {
    (choose|q: (int, int)| #[trigger] s.contains(q) && (forall|r: (int, int)|
        #[trigger] s.contains(r) ==> r.1 <= q.1)).1
}

/// A value that some member attains and no member goes below is the least
/// x of the set, and likewise for the other three bounds.
pub proof fn lemma_set_bounds_are(s: Set<(int, int)>, minx: int, miny: int, maxx: int, maxy: int)
    requires
        exists|q: (int, int)| #[trigger] s.contains(q) && q.0 == minx,
        exists|q: (int, int)| #[trigger] s.contains(q) && q.0 == maxx,
        exists|q: (int, int)| #[trigger] s.contains(q) && q.1 == miny,
        exists|q: (int, int)| #[trigger] s.contains(q) && q.1 == maxy,
        forall|q: (int, int)| #[trigger] s.contains(q) ==> minx <= q.0 <= maxx,
        forall|q: (int, int)| #[trigger] s.contains(q) ==> miny <= q.1 <= maxy,
    ensures
        set_min_x(s) == minx,
        set_max_x(s) == maxx,
        set_min_y(s) == miny,
        set_max_y(s) == maxy,
{
    let a1 = choose|q: (int, int)| #[trigger] s.contains(q) && q.0 == minx;
    let w1 = choose|q: (int, int)| #[trigger] s.contains(q) && (forall|r: (int, int)|
        #[trigger] s.contains(r) ==> q.0 <= r.0);
    assert(s.contains(a1) && (forall|r: (int, int)| #[trigger] s.contains(r) ==> a1.0 <= r.0));
    assert(s.contains(w1) && w1.0 <= a1.0 && minx <= w1.0);
    let a2 = choose|q: (int, int)| #[trigger] s.contains(q) && q.0 == maxx;
    let w2 = choose|q: (int, int)| #[trigger] s.contains(q) && (forall|r: (int, int)|
        #[trigger] s.contains(r) ==> r.0 <= q.0);
    assert(s.contains(a2) && (forall|r: (int, int)| #[trigger] s.contains(r) ==> r.0 <= a2.0));
    assert(s.contains(w2) && a2.0 <= w2.0 && w2.0 <= maxx);
    let a3 = choose|q: (int, int)| #[trigger] s.contains(q) && q.1 == miny;
    let w3 = choose|q: (int, int)| #[trigger] s.contains(q) && (forall|r: (int, int)|
        #[trigger] s.contains(r) ==> q.1 <= r.1);
    assert(s.contains(a3) && (forall|r: (int, int)| #[trigger] s.contains(r) ==> a3.1 <= r.1));
    assert(s.contains(w3) && w3.1 <= a3.1 && miny <= w3.1);
    let a4 = choose|q: (int, int)| #[trigger] s.contains(q) && q.1 == maxy;
    let w4 = choose|q: (int, int)| #[trigger] s.contains(q) && (forall|r: (int, int)|
        #[trigger] s.contains(r) ==> r.1 <= q.1);
    assert(s.contains(a4) && (forall|r: (int, int)| #[trigger] s.contains(r) ==> r.1 <= a4.1));
    assert(s.contains(w4) && a4.1 <= w4.1 && w4.1 <= maxy);
}

/// Every live coordinate lies within the camera computation's safe bound.
pub open spec fn camera_range(live: Set<(int, int)>) -> bool {
    forall|q: (int, int)| #[trigger] live.contains(q) ==> -0x2000000000000000 <= q.0
        <= 0x2000000000000000 && -0x2000000000000000 <= q.1 <= 0x2000000000000000
}

/// Scans the cells for the bounding box of the live set.
fn live_bounds(u: &Universe) -> (b: (i64, i64, i64, i64))
    requires
        camera_range(u.live()),
        u.value@.len() > 0,
    ensures
        b.0 as int == set_min_x(u.live()),
        b.1 as int == set_min_y(u.live()),
        b.2 as int == set_max_x(u.live()),
        b.3 as int == set_max_y(u.live()),
        -0x2000000000000000 <= b.0 <= b.2 <= 0x2000000000000000,
        -0x2000000000000000 <= b.1 <= b.3 <= 0x2000000000000000,
{
    let n = u.value.len();
    let first = u.value[0];
    proof {
        assert(pt(u.value@[0]) == pt(first));
        assert(u.live().contains(pt(first)));
    }
    let mut min_x = first.x;
    let mut max_x = first.x;
    let mut min_y = first.y;
    let mut max_y = first.y;
    let mut i: usize = 1;
    while i < n
        invariant
            1 <= i <= n,
            n == u.value@.len(),
            camera_range(u.live()),
            exists|j: int| 0 <= j < i && (#[trigger] u.value@[j]).x == min_x,
            exists|j: int| 0 <= j < i && (#[trigger] u.value@[j]).x == max_x,
            exists|j: int| 0 <= j < i && (#[trigger] u.value@[j]).y == min_y,
            exists|j: int| 0 <= j < i && (#[trigger] u.value@[j]).y == max_y,
            forall|j: int| 0 <= j < i ==> min_x <= (#[trigger] u.value@[j]).x <= max_x,
            forall|j: int| 0 <= j < i ==> min_y <= (#[trigger] u.value@[j]).y <= max_y,
            -0x2000000000000000 <= min_x <= max_x <= 0x2000000000000000,
            -0x2000000000000000 <= min_y <= max_y <= 0x2000000000000000,
        decreases n - i,
    {
        let p = u.value[i];
        proof {
            assert(pt(u.value@[i as int]) == pt(p));
            assert(u.live().contains(pt(p)));
        }
        if p.x < min_x {
            min_x = p.x;
        }
        if p.x > max_x {
            max_x = p.x;
        }
        if p.y < min_y {
            min_y = p.y;
        }
        if p.y > max_y {
            max_y = p.y;
        }
        i = i + 1;
    }
    proof {
        assert forall|q: (int, int)| #[trigger] u.live().contains(q) implies min_x <= q.0 <= max_x
            && min_y <= q.1 <= max_y by {
            let j = choose|j: int| 0 <= j < u.value@.len() && pt(#[trigger] u.value@[j]) == q;
        }
        let j1 = choose|j: int| 0 <= j < n && (#[trigger] u.value@[j]).x == min_x;
        assert(u.live().contains(pt(u.value@[j1])));
        let j2 = choose|j: int| 0 <= j < n && (#[trigger] u.value@[j]).x == max_x;
        assert(u.live().contains(pt(u.value@[j2])));
        let j3 = choose|j: int| 0 <= j < n && (#[trigger] u.value@[j]).y == min_y;
        assert(u.live().contains(pt(u.value@[j3])));
        let j4 = choose|j: int| 0 <= j < n && (#[trigger] u.value@[j]).y == max_y;
        assert(u.live().contains(pt(u.value@[j4])));
        lemma_set_bounds_are(u.live(), min_x as int, min_y as int, max_x as int, max_y as int);
    }
    (min_x, min_y, max_x, max_y)
}

/// Fits a square camera around all live cells with a margin of 4 on every
/// side, padding the shorter axis of the bounding box to a square first.
/// An empty universe gets a fixed default camera centered at the origin.
pub fn get_camera(u: &Universe) -> (r: Rect)
    requires
        camera_range(u.live()),
    ensures
        u.value@.len() == 0 ==> r == (Rect { x1: -4i64, y1: -4i64, x2: 4i64, y2: 4i64 }),
        u.value@.len() > 0 ==> (r.x1 as int, r.y1 as int, r.x2 as int, r.y2 as int)
            == spec_fit_camera(
            set_min_x(u.live()),
            set_min_y(u.live()),
            set_max_x(u.live()),
            set_max_y(u.live()),
        ),
        r.x2 - r.x1 == r.y2 - r.y1,
        r.x1 <= r.x2,
{
    let n = u.value.len();
    if n == 0 {
        return Rect { x1: -4, y1: -4, x2: 4, y2: 4 };
    }
    let bounds = live_bounds(u);
    let mut min_x = bounds.0;
    let mut min_y = bounds.1;
    let mut max_x = bounds.2;
    let mut max_y = bounds.3;
    let len_x = max_x - min_x + 1;
    let len_y = max_y - min_y + 1;
    if len_x > len_y {
        let diff = len_x - len_y;
        let diff_start = diff / 2;
        let diff_end = diff - diff_start;
        min_y = min_y - diff_start;
        max_y = max_y + diff_end;
    }
    if len_y > len_x {
        let diff = len_y - len_x;
        let diff_start = diff / 2;
        let diff_end = diff - diff_start;
        min_x = min_x - diff_start;
        max_x = max_x + diff_end;
    }
    Rect { x1: min_x - 4, y1: min_y - 4, x2: max_x + 4, y2: max_y + 4 }
}

/// The world cell that a pixel position denotes under camera `cam` and
/// canvas size `dim`, or nothing when the derived cell size is zero.
pub open spec fn spec_absolute_target(p: MatrixP, cam: Rect, dim: u16) -> Option<(int, int)> {
    let sub = spec_subdivision_size(cam, dim);
    if sub <= 0 {
        None
    } else {
        let col = (p.col as int) / sub;
        let row = (p.row as int) / sub;
        let xy = spec_matrix_to_cartesian(row, col, spec_length(cam));
        let c = spec_center(cam);
        Some((xy.0 + c.0, xy.1 + c.1))
    }
}

/// Toggles the cell under a pixel position: the position is floor-divided
/// by the cell's pixel size, converted through the camera's length, and
/// shifted by the camera's center. A degenerate cell size (canvas smaller
/// than the camera span) is a silent no-op.
pub fn toggle_cell_by_absolute_point(u: &mut Universe, p: MatrixP, cam: &Rect, dim: u16)
    requires
        old(u).wf(),
        cam.x1 <= cam.x2,
        cam.y1 <= cam.y2,
        -0x1000000000000000 <= cam.x1 <= 0x1000000000000000,
        -0x1000000000000000 <= cam.y1 <= 0x1000000000000000,
        -0x1000000000000000 <= cam.x2 <= 0x1000000000000000,
        -0x1000000000000000 <= cam.y2 <= 0x1000000000000000,
        -0x1000000000000000 <= p.row <= 0x1000000000000000,
        -0x1000000000000000 <= p.col <= 0x1000000000000000,
    ensures
        final(u).wf(),
        final(u).age == old(u).age,
        match spec_absolute_target(p, *cam, dim) {
            None => final(u).live() == old(u).live(),
            Some(t) => final(u).live() == spec_toggled(old(u).live(), t),
        },
{
    let length = get_length(cam);
    let center = get_center(cam);
    let subdivision_size = get_subdivision_size(cam, dim);
    if subdivision_size == 0 {
        return;
    }
    let col = absolute_to_relative(p.col, subdivision_size as i64);
    let row = absolute_to_relative(p.row, subdivision_size as i64);
    proof {
        lemma_div_magnitude_le(p.col as int, subdivision_size as int, 0x1000000000000000);
        lemma_div_magnitude_le(p.row as int, subdivision_size as int, 0x1000000000000000);
    }
    let point = matrix_to_cartesian(MatrixP { row, col }, length);
    let cell_point = CartesianP { x: point.x + center.x, y: point.y + center.y };
    proof {
        assert(pt(cell_point) == spec_absolute_target(p, *cam, dim).unwrap());
    }
    toggle_cell(u, cell_point);
}


/// A no-op generation: the empty universe stays empty under Conway's rule.
/// (That `iterate` still increments the age is part of its own contract.)
pub proof fn lemma_iterate_empty()
    ensures
        spec_next(Set::<(int, int)>::empty()) == Set::<(int, int)>::empty(),
{
    let e = Set::<(int, int)>::empty();
    assert forall|q: (int, int)| !spec_next(e).contains(q) by {
        assert(crate::neighbor::spec_live_neighbors(e, q.0, q.1) == 0);
    }
    assert(spec_next(e) =~= e);
}

/// The 2-by-2 block of live cells with lower-left corner `(x, y)`.
pub open spec fn spec_block(x: int, y: int) -> Set<(int, int)> {
    Set::new(|q: (int, int)| x <= q.0 <= x + 1 && y <= q.1 <= y + 1)
}

/// Still life: a universe holding exactly a 2-by-2 block of live cells is
/// unchanged by a generation.
pub proof fn lemma_block_still_life(x: int, y: int)
    ensures
        spec_next(spec_block(x, y)) == spec_block(x, y),
{
    let b = spec_block(x, y);
    assert forall|q: (int, int)| spec_next(b).contains(q) <==> b.contains(q) by {
        let n = crate::neighbor::spec_live_neighbors(b, q.0, q.1);
        if b.contains(q) {
            assert(n == 3);
        } else {
            assert(n != 3);
        }
    }
    assert(spec_next(b) =~= b);
}

/// The vertical line of three live cells centered on `(x, y)`.
pub open spec fn spec_vertical_line(x: int, y: int) -> Set<(int, int)> {
    Set::new(|q: (int, int)| q.0 == x && y - 1 <= q.1 <= y + 1)
}

/// The horizontal line of three live cells centered on `(x, y)`.
pub open spec fn spec_horizontal_line(x: int, y: int) -> Set<(int, int)> {
    Set::new(|q: (int, int)| q.1 == y && x - 1 <= q.0 <= x + 1)
}

/// The blinker oscillates with period 2: a vertical 3-cell line becomes
/// the horizontal line through the same center, and one more generation
/// restores the vertical line.
pub proof fn lemma_blinker_oscillates(x: int, y: int)
    ensures
        spec_next(spec_vertical_line(x, y)) == spec_horizontal_line(x, y),
        spec_next(spec_horizontal_line(x, y)) == spec_vertical_line(x, y),
        spec_next(spec_next(spec_vertical_line(x, y))) == spec_vertical_line(x, y),
{
    let v = spec_vertical_line(x, y);
    let h = spec_horizontal_line(x, y);
    assert forall|q: (int, int)| spec_next(v).contains(q) <==> h.contains(q) by {
        let n = crate::neighbor::spec_live_neighbors(v, q.0, q.1);
        if h.contains(q) {
            if q == (x, y) {
                assert(n == 2);
                assert(v.contains(q));
            } else {
                assert(n == 3);
            }
        } else {
            if v.contains(q) && q != (x, y) {
                assert(n == 1);
            }
        }
    }
    assert(spec_next(v) =~= h);
    assert forall|q: (int, int)| spec_next(h).contains(q) <==> v.contains(q) by {
        let n = crate::neighbor::spec_live_neighbors(h, q.0, q.1);
        if v.contains(q) {
            if q == (x, y) {
                assert(n == 2);
                assert(h.contains(q));
            } else {
                assert(n == 3);
            }
        } else {
            if h.contains(q) && q != (x, y) {
                assert(n == 1);
            }
        }
    }
    assert(spec_next(h) =~= v);
}

/// Toggle round trip: flipping the same point twice restores the live set
/// exactly; with `toggle_cell`'s contract, the age and every other cell are
/// untouched throughout.
pub proof fn lemma_toggle_round_trip(live: Set<(int, int)>, q: (int, int))
    ensures
        spec_toggled(spec_toggled(live, q), q) == live,
{
    if live.contains(q) {
        assert(spec_toggled(live.remove(q), q) =~= live);
    } else {
        assert(spec_toggled(live.insert(q), q) =~= live);
    }
}

} // verus!
