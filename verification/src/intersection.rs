//! Oriented-rectangle collision testing by the separating axis theorem.
//!
//! A rectangle is given by its center, extents and heading. Its four
//! corners are the rotated half-extent offsets around the center, in a
//! fixed winding order; consecutive corners form edges, and each edge
//! yields an (unnormalized) projection axis. Two rectangles intersect
//! exactly when no axis from either rectangle separates their corner
//! projections.

use vstd::prelude::*;

use crate::fixed::FX_ONE;
use crate::fixed::fx_abs;
use crate::fixed::fx_cos_spec;
use crate::fixed::fx_half;
use crate::fixed::fx_mul;
use crate::fixed::fx_sin_spec;
use crate::fixed::fx_cos;
use crate::fixed::fx_sin;
use crate::fixed::half_fx;
use crate::fixed::lemma_fx_mul_neg_left;
use crate::fixed::lemma_fx_mul_unit_bound;
use crate::fixed::mul_fx;

verus! {

/// Largest coordinate magnitude (for centers and extents alike) that
/// keeps every projection inside the machine integers.
pub const COORD_LIMIT: i64 = 0x100_0000_0000_0000;

/// An oriented rectangle: center, extents, heading in fixed-point
/// radians.
#[derive(Debug, Clone, Copy, PartialEq, Eq, Structural)]
pub struct Rectangle {
    pub x: i64,
    pub y: i64,
    pub width: i64,
    pub height: i64,
    pub angle: i64,
}

/// A corner of a rectangle; also reused as a projection axis.
#[derive(Debug, Clone, Copy, PartialEq, Eq, Structural)]
pub struct Corner {
    pub x: i64,
    pub y: i64,
}

/// A directed edge between two consecutive corners.
#[derive(Debug, Clone, Copy, PartialEq, Eq, Structural)]
pub struct Edge {
    pub start: Corner,
    pub end: Corner,
}

/// Coordinates small enough that corner and axis arithmetic cannot
/// overflow.
pub open spec fn rect_wf(r: Rectangle) -> bool {
    &&& -COORD_LIMIT <= r.x <= COORD_LIMIT
    &&& -COORD_LIMIT <= r.y <= COORD_LIMIT
    &&& -COORD_LIMIT <= r.width <= COORD_LIMIT
    &&& -COORD_LIMIT <= r.height <= COORD_LIMIT
}

/// First coordinate of a half-extent offset rotated by the heading.
pub open spec fn rotate_x(ox: int, oy: int, s: int, c: int) -> int {
    fx_mul(ox, c) - fx_mul(oy, s)
}

/// Second coordinate of a half-extent offset rotated by the heading.
pub open spec fn rotate_y(ox: int, oy: int, s: int, c: int) -> int {
    fx_mul(ox, s) + fx_mul(oy, c)
}

/// The signed half-extent offset of corner `i`, before rotation, in
/// the fixed winding order: front-right, back-right, back-left,
/// front-left.
pub open spec fn corner_offset(r: Rectangle, i: int) -> (int, int) {
    let w2 = fx_half(r.width as int);
    let h2 = fx_half(r.height as int);
    let ox = if i == 0 || i == 1 {
        w2
    } else {
        -w2
    };
    let oy = if i == 0 || i == 3 {
        h2
    } else {
        -h2
    };
    (ox, oy)
}

/// Corner `i` of the rectangle: the rotated offset translated to the
/// center.
pub open spec fn vertex_spec(r: Rectangle, i: int) -> (int, int) {
    let s = fx_sin_spec(r.angle as int);
    let c = fx_cos_spec(r.angle as int);
    let o = corner_offset(r, i);
    (r.x + rotate_x(o.0, o.1, s, c), r.y + rotate_y(o.0, o.1, s, c))
}

/// The index of the corner an edge leads to.
pub open spec fn next_corner(i: int) -> int {
    if i == 3 {
        0
    } else {
        i + 1
    }
}

/// The projection axis contributed by edge `i` of the rectangle.
pub open spec fn axis_spec(r: Rectangle, i: int) -> (int, int) {
    let v0 = vertex_spec(r, i);
    let v1 = vertex_spec(r, next_corner(i));
    (v0.0 - v1.0, v1.1 - v0.1)
}

/// The corner as a pair of mathematical integers.
pub open spec fn corner_val(c: Corner) -> (int, int) {
    (c.x as int, c.y as int)
}

proof fn lemma_sin_half_turn_range(x: int)
    requires
        0 <= x <= crate::fixed::FX_PI,
    ensures
        0 <= crate::fixed::fx_sin_half_turn(x) <= FX_ONE,
{
    let prod = x * (crate::fixed::FX_PI - x);
    assert(0 <= prod <= 10597364192) by (nonlinear_arith)
        requires
            0 <= x <= 205887,
            prod == x * (205887 - x),
    ;
    let num = 16 * prod;
    let den = 5 * crate::fixed::FX_PI * crate::fixed::FX_PI - 4 * prod;
    assert(5 * (crate::fixed::FX_PI as int) * (crate::fixed::FX_PI as int) == 211947283845)
        by (nonlinear_arith)
        requires
            (crate::fixed::FX_PI as int) == 205887,
    ;
    vstd::arithmetic::div_mod::lemma_div_pos_is_pos(num * FX_ONE, den);
}

/// The fixed-point sine always has magnitude at most one.
pub proof fn lemma_fx_sin_spec_bounds(a: int)
    ensures
        -FX_ONE <= fx_sin_spec(a) <= FX_ONE,
{
    let m = crate::fixed::FX_TWO_PI as int;
    vstd::arithmetic::div_mod::lemma_mod_bound(a, m);
    let x = a % m;
    if x <= crate::fixed::FX_PI {
        lemma_sin_half_turn_range(x);
    } else {
        lemma_sin_half_turn_range(x - crate::fixed::FX_PI);
    }
}

/// The fixed-point cosine always has magnitude at most one.
pub proof fn lemma_fx_cos_spec_bounds(a: int)
    ensures
        -FX_ONE <= fx_cos_spec(a) <= FX_ONE,
{
    lemma_fx_sin_spec_bounds(a + crate::fixed::FX_HALF_PI);
}

/// Every corner of a well-formed rectangle stays within twice the
/// coordinate limit of the origin.
pub proof fn lemma_vertex_bounds(r: Rectangle, i: int)
    requires
        rect_wf(r),
    ensures
        -2 * COORD_LIMIT <= vertex_spec(r, i).0 <= 2 * COORD_LIMIT,
        -2 * COORD_LIMIT <= vertex_spec(r, i).1 <= 2 * COORD_LIMIT,
{
    let s = fx_sin_spec(r.angle as int);
    let c = fx_cos_spec(r.angle as int);
    lemma_fx_sin_spec_bounds(r.angle as int);
    lemma_fx_cos_spec_bounds(r.angle as int);
    let o = corner_offset(r, i);
    lemma_fx_mul_unit_bound(o.0, c);
    lemma_fx_mul_unit_bound(o.1, s);
    lemma_fx_mul_unit_bound(o.0, s);
    lemma_fx_mul_unit_bound(o.1, c);
}

impl Rectangle {
    /// A rectangle from its raw parts; the heading is kept as given.
    pub fn new(x: i64, y: i64, width: i64, height: i64, angle: i64) -> (r: Rectangle)
        ensures
            r == (Rectangle { x, y, width, height, angle }),
    {
        Rectangle { x, y, width, height, angle }
    }

    /// The four corners in winding order.
    pub fn vertices(&self) -> (v: Vec<Corner>)
        requires
            rect_wf(*self),
        ensures
            v@.len() == 4,
            forall|i: int|
                0 <= i < 4 ==> #[trigger] corner_val(v@[i]) == vertex_spec(*self, i),
    {
        let s = fx_sin(self.angle);
        let c = fx_cos(self.angle);
        let w2 = half_fx(self.width);
        let h2 = half_fx(self.height);
        proof {
            lemma_fx_mul_unit_bound(w2 as int, c as int);
            lemma_fx_mul_unit_bound(w2 as int, s as int);
            lemma_fx_mul_unit_bound(h2 as int, c as int);
            lemma_fx_mul_unit_bound(h2 as int, s as int);
            lemma_fx_mul_unit_bound(-(w2 as int), c as int);
            lemma_fx_mul_unit_bound(-(w2 as int), s as int);
            lemma_fx_mul_unit_bound(-(h2 as int), c as int);
            lemma_fx_mul_unit_bound(-(h2 as int), s as int);
        }
        let mut v: Vec<Corner> = Vec::new();
        v.push(Corner { x: self.x + (mul_fx(w2, c) - mul_fx(h2, s)), y: self.y + (mul_fx(w2, s) + mul_fx(h2, c)) });
        v.push(Corner { x: self.x + (mul_fx(w2, c) - mul_fx(-h2, s)), y: self.y + (mul_fx(w2, s) + mul_fx(-h2, c)) });
        v.push(Corner { x: self.x + (mul_fx(-w2, c) - mul_fx(-h2, s)), y: self.y + (mul_fx(-w2, s) + mul_fx(-h2, c)) });
        v.push(Corner { x: self.x + (mul_fx(-w2, c) - mul_fx(h2, s)), y: self.y + (mul_fx(-w2, s) + mul_fx(h2, c)) });
        v
    }

    /// The four edges: consecutive corners, wrapping around.
    pub fn edges(&self) -> (e: Vec<Edge>)
        requires
            rect_wf(*self),
        ensures
            e@.len() == 4,
            forall|i: int|
                0 <= i < 4 ==> #[trigger] corner_val(e@[i].start) == vertex_spec(*self, i),
            forall|i: int|
                0 <= i < 4 ==> #[trigger] corner_val(e@[i].end) == vertex_spec(
                    *self,
                    next_corner(i),
                ),
    {
        let vertices = self.vertices();
        let mut edges: Vec<Edge> = Vec::new();
        edges.push(Edge { start: vertices[0], end: vertices[1] });
        edges.push(Edge { start: vertices[1], end: vertices[2] });
        edges.push(Edge { start: vertices[2], end: vertices[3] });
        edges.push(Edge { start: vertices[3], end: vertices[0] });
        edges
    }
}

/// The scalar projection of a point onto an axis.
pub open spec fn proj(n: (int, int), v: (int, int)) -> int {
    n.0 * v.0 + n.1 * v.1
}

/// The smaller of two integers.
pub open spec fn min2(a: int, b: int) -> int {
    if a <= b {
        a
    } else {
        b
    }
}

/// The larger of two integers.
pub open spec fn max2(a: int, b: int) -> int {
    if a >= b {
        a
    } else {
        b
    }
}

/// The smallest projection of the rectangle's corners onto an axis.
pub open spec fn min_proj(r: Rectangle, n: (int, int)) -> int {
    min2(
        min2(proj(n, vertex_spec(r, 0)), proj(n, vertex_spec(r, 1))),
        min2(proj(n, vertex_spec(r, 2)), proj(n, vertex_spec(r, 3))),
    )
}

/// The largest projection of the rectangle's corners onto an axis.
pub open spec fn max_proj(r: Rectangle, n: (int, int)) -> int {
    max2(
        max2(proj(n, vertex_spec(r, 0)), proj(n, vertex_spec(r, 1))),
        max2(proj(n, vertex_spec(r, 2)), proj(n, vertex_spec(r, 3))),
    )
}

/// Whether an axis separates the two rectangles' corner projections:
/// the projection intervals are disjoint. Intervals that merely touch
/// do not separate.
pub open spec fn axis_separates(n: (int, int), a: Rectangle, b: Rectangle) -> bool {
    max_proj(a, n) < min_proj(b, n) || max_proj(b, n) < min_proj(a, n)
}

/// Axis `i` of the eight tested by the collision test: first the four
/// from `a`, then the four from `b`.
pub open spec fn sat_axis(a: Rectangle, b: Rectangle, i: int) -> (int, int) {
    if i < 4 {
        axis_spec(a, i)
    } else {
        axis_spec(b, i - 4)
    }
}

/// Whether some tested axis separates the rectangles.
pub open spec fn rects_separated(a: Rectangle, b: Rectangle) -> bool {
    exists|i: int| 0 <= i < 8 && axis_separates(#[trigger] sat_axis(a, b, i), a, b)
}

/// Whether the rectangles overlap or touch: no tested axis separates
/// them.
pub open spec fn rects_intersect(a: Rectangle, b: Rectangle) -> bool {
    !rects_separated(a, b)
}

proof fn lemma_mul_bounds(a: int, b: int, am: int, bm: int)
    by (nonlinear_arith)
    requires
        -am <= a <= am,
        -bm <= b <= bm,
        0 <= am,
        0 <= bm,
    ensures
        -(am * bm) <= a * b <= am * bm,
{
}

/// The projection of a corner onto an axis, both given as corners.
pub open spec fn proj_c(n: Corner, v: Corner) -> int {
    proj(corner_val(n), corner_val(v))
}

fn proj_exec(n: &Corner, v: &Corner) -> (p: i128)
    requires
        -4 * COORD_LIMIT <= n.x <= 4 * COORD_LIMIT,
        -4 * COORD_LIMIT <= n.y <= 4 * COORD_LIMIT,
        -2 * COORD_LIMIT <= v.x <= 2 * COORD_LIMIT,
        -2 * COORD_LIMIT <= v.y <= 2 * COORD_LIMIT,
    ensures
        p as int == proj_c(*n, *v),
{
    proof {
        lemma_mul_bounds(n.x as int, v.x as int, 0x400_0000_0000_0000, 0x200_0000_0000_0000);
        lemma_mul_bounds(n.y as int, v.y as int, 0x400_0000_0000_0000, 0x200_0000_0000_0000);
    }
    (n.x as i128) * (v.x as i128) + (n.y as i128) * (v.y as i128)
}

spec fn corners_in_range(v: Seq<Corner>) -> bool {
    forall|i: int|
        0 <= i < v.len() ==> -2 * COORD_LIMIT <= #[trigger] v[i].x <= 2 * COORD_LIMIT
            && -2 * COORD_LIMIT <= v[i].y <= 2 * COORD_LIMIT
}

fn project_range(n: &Corner, v: &Vec<Corner>) -> (mm: (i128, i128))
    requires
        v@.len() == 4,
        corners_in_range(v@),
        -4 * COORD_LIMIT <= n.x <= 4 * COORD_LIMIT,
        -4 * COORD_LIMIT <= n.y <= 4 * COORD_LIMIT,
    ensures
        mm.0 as int == min2(
            min2(proj_c(*n, v@[0]), proj_c(*n, v@[1])),
            min2(proj_c(*n, v@[2]), proj_c(*n, v@[3])),
        ),
        mm.1 as int == max2(
            max2(proj_c(*n, v@[0]), proj_c(*n, v@[1])),
            max2(proj_c(*n, v@[2]), proj_c(*n, v@[3])),
        ),
{
    let p0 = proj_exec(n, &v[0]);
    let p1 = proj_exec(n, &v[1]);
    let p2 = proj_exec(n, &v[2]);
    let p3 = proj_exec(n, &v[3]);
    let mut lo = p0;
    let mut hi = p0;
    if p1 < lo {
        lo = p1;
    }
    if p1 > hi {
        hi = p1;
    }
    if p2 < lo {
        lo = p2;
    }
    if p2 > hi {
        hi = p2;
    }
    if p3 < lo {
        lo = p3;
    }
    if p3 > hi {
        hi = p3;
    }
    (lo, hi)
}

impl Rectangle {
    /// The separating axis test: projects both rectangles' corners
    /// onto each of the eight edge axes; disjoint projection intervals
    /// on any axis prove separation, and if no axis separates them the
    /// rectangles overlap or touch.
    #[verifier::loop_isolation(false)]
    pub fn intersects(&self, rect: &Rectangle) -> (r: bool)
        requires
            rect_wf(*self),
            rect_wf(*rect),
        ensures
            r == rects_intersect(*self, *rect),
    {
        let va = self.vertices();
        let vb = rect.vertices();
        let edges_a = self.edges();
        let edges_b = rect.edges();
        proof {
            assert forall|k: int| 0 <= k < 4 implies -2 * COORD_LIMIT
                <= #[trigger] va@[k].x <= 2 * COORD_LIMIT && -2 * COORD_LIMIT <= va@[k].y <= 2
                * COORD_LIMIT by {
                lemma_vertex_bounds(*self, k);
                assert(corner_val(va@[k]) == vertex_spec(*self, k));
            }
            assert forall|k: int| 0 <= k < 4 implies -2 * COORD_LIMIT
                <= #[trigger] vb@[k].x <= 2 * COORD_LIMIT && -2 * COORD_LIMIT <= vb@[k].y <= 2
                * COORD_LIMIT by {
                lemma_vertex_bounds(*rect, k);
                assert(corner_val(vb@[k]) == vertex_spec(*rect, k));
            }
            assert forall|k: int| 0 <= k < 4 implies -2 * COORD_LIMIT
                <= #[trigger] edges_a@[k].start.x <= 2 * COORD_LIMIT && -2 * COORD_LIMIT
                <= edges_a@[k].start.y <= 2 * COORD_LIMIT && -2 * COORD_LIMIT
                <= edges_a@[k].end.x <= 2 * COORD_LIMIT && -2 * COORD_LIMIT
                <= edges_a@[k].end.y <= 2 * COORD_LIMIT by {
                lemma_vertex_bounds(*self, k);
                lemma_vertex_bounds(*self, next_corner(k));
                assert(corner_val(edges_a@[k].start) == vertex_spec(*self, k));
                assert(corner_val(edges_a@[k].end) == vertex_spec(*self, next_corner(k)));
            }
            assert forall|k: int| 0 <= k < 4 implies -2 * COORD_LIMIT
                <= #[trigger] edges_b@[k].start.x <= 2 * COORD_LIMIT && -2 * COORD_LIMIT
                <= edges_b@[k].start.y <= 2 * COORD_LIMIT && -2 * COORD_LIMIT
                <= edges_b@[k].end.x <= 2 * COORD_LIMIT && -2 * COORD_LIMIT
                <= edges_b@[k].end.y <= 2 * COORD_LIMIT by {
                lemma_vertex_bounds(*rect, k);
                lemma_vertex_bounds(*rect, next_corner(k));
                assert(corner_val(edges_b@[k].start) == vertex_spec(*rect, k));
                assert(corner_val(edges_b@[k].end) == vertex_spec(*rect, next_corner(k)));
            }
        }
        let mut i: usize = 0;
        while i < 8
            invariant
                i <= 8,
                forall|j: int|
                    0 <= j < i ==> !axis_separates(
                        #[trigger] sat_axis(*self, *rect, j),
                        *self,
                        *rect,
                    ),
            decreases 8 - i,
        {
            let e = if i < 4 {
                edges_a[i]
            } else {
                edges_b[i - 4]
            };
            let n = e.normal();
            proof {
                if i < 4 {
                    assert(corner_val(edges_a@[i as int].start) == vertex_spec(*self, i as int));
                    assert(corner_val(edges_a@[i as int].end) == vertex_spec(
                        *self,
                        next_corner(i as int),
                    ));
                } else {
                    assert(corner_val(edges_b@[i - 4].start) == vertex_spec(*rect, i - 4));
                    assert(corner_val(edges_b@[i - 4].end) == vertex_spec(
                        *rect,
                        next_corner(i - 4),
                    ));
                }
                assert(corner_val(n) == sat_axis(*self, *rect, i as int));
            }
            let ra = project_range(&n, &va);
            let rb = project_range(&n, &vb);
            proof {
                let axis = sat_axis(*self, *rect, i as int);
                assert(ra.0 as int == min_proj(*self, axis) && ra.1 as int == max_proj(
                    *self,
                    axis,
                ));
                assert(rb.0 as int == min_proj(*rect, axis) && rb.1 as int == max_proj(
                    *rect,
                    axis,
                ));
            }
            if ra.1 < rb.0 || rb.1 < ra.0 {
                proof {
                    assert(axis_separates(sat_axis(*self, *rect, i as int), *self, *rect));
                }
                return false;
            }
            i = i + 1;
        }
        true
    }
}

impl Edge {
    /// The projection axis of this edge: perpendicular ordering of the
    /// endpoint differences, left unnormalized because only the order
    /// of projections matters.
    pub fn normal(&self) -> (n: Corner)
        requires
            -4 * COORD_LIMIT <= self.start.x <= 4 * COORD_LIMIT,
            -4 * COORD_LIMIT <= self.start.y <= 4 * COORD_LIMIT,
            -4 * COORD_LIMIT <= self.end.x <= 4 * COORD_LIMIT,
            -4 * COORD_LIMIT <= self.end.y <= 4 * COORD_LIMIT,
        ensures
            n.x as int == self.start.x - self.end.x,
            n.y as int == self.end.y - self.start.y,
    {
        Corner { y: self.end.y - self.start.y, x: self.start.x - self.end.x }
    }
}

proof fn lemma_opposite_projections(nx: int, ny: int, cx: int, cy: int, dx: int, dy: int)
    by (nonlinear_arith)
    ensures
        nx * (cx + dx) + ny * (cy + dy) + (nx * (cx - dx) + ny * (cy - dy)) == 2 * (nx * cx + ny
            * cy),
{
}

/// The projection of a rectangle's center always lies inside the
/// projection interval of its corners: opposite corners straddle the
/// center exactly, even after fixed-point rounding, because scaling
/// down truncates toward zero.
pub proof fn lemma_center_in_projection(r: Rectangle, n: (int, int))
    ensures
        min_proj(r, n) <= proj(n, (r.x as int, r.y as int)),
        proj(n, (r.x as int, r.y as int)) <= max_proj(r, n),
{
    let s = fx_sin_spec(r.angle as int);
    let c = fx_cos_spec(r.angle as int);
    let w2 = fx_half(r.width as int);
    let h2 = fx_half(r.height as int);
    lemma_fx_mul_neg_left(w2, c);
    lemma_fx_mul_neg_left(h2, s);
    lemma_fx_mul_neg_left(w2, s);
    lemma_fx_mul_neg_left(h2, c);
    let d0x = rotate_x(w2, h2, s, c);
    let d0y = rotate_y(w2, h2, s, c);
    let d1x = rotate_x(w2, -h2, s, c);
    let d1y = rotate_y(w2, -h2, s, c);
    assert(vertex_spec(r, 0).0 == r.x + d0x && vertex_spec(r, 0).1 == r.y + d0y);
    assert(vertex_spec(r, 2).0 == r.x - d0x && vertex_spec(r, 2).1 == r.y - d0y);
    assert(vertex_spec(r, 1).0 == r.x + d1x && vertex_spec(r, 1).1 == r.y + d1y);
    assert(vertex_spec(r, 3).0 == r.x - d1x && vertex_spec(r, 3).1 == r.y - d1y);
    lemma_opposite_projections(n.0, n.1, r.x as int, r.y as int, d0x, d0y);
    lemma_opposite_projections(n.0, n.1, r.x as int, r.y as int, d1x, d1y);
}

/// Rectangles sharing a center always intersect, whatever their
/// extents and headings: every axis projects both corner sets onto an
/// interval containing the common center's projection.
pub proof fn lemma_colocated_intersect(a: Rectangle, b: Rectangle)
    requires
        a.x == b.x,
        a.y == b.y,
    ensures
        rects_intersect(a, b),
{
    assert forall|i: int| 0 <= i < 8 implies !axis_separates(
        #[trigger] sat_axis(a, b, i),
        a,
        b,
    ) by {
        let n = sat_axis(a, b, i);
        lemma_center_in_projection(a, n);
        lemma_center_in_projection(b, n);
    }
}

/// A rectangle always intersects an identical copy of itself.
pub proof fn lemma_intersects_self(r: Rectangle)
    ensures
        rects_intersect(r, r),
{
    lemma_colocated_intersect(r, r);
}

/// The collision test is symmetric: the axes tested are the same
/// eight either way around, and interval disjointness does not depend
/// on the order of the rectangles.
pub proof fn lemma_intersects_symmetric(a: Rectangle, b: Rectangle)
    ensures
        rects_intersect(a, b) == rects_intersect(b, a),
{
    if rects_separated(a, b) {
        let i = choose|i: int| 0 <= i < 8 && axis_separates(#[trigger] sat_axis(a, b, i), a, b);
        let j: int = if i < 4 {
            i + 4
        } else {
            i - 4
        };
        assert(sat_axis(b, a, j) == sat_axis(a, b, i));
        assert(axis_separates(sat_axis(b, a, j), b, a));
    }
    if rects_separated(b, a) {
        let i = choose|i: int| 0 <= i < 8 && axis_separates(#[trigger] sat_axis(b, a, i), b, a);
        let j: int = if i < 4 {
            i + 4
        } else {
            i - 4
        };
        assert(sat_axis(a, b, j) == sat_axis(b, a, i));
        assert(axis_separates(sat_axis(a, b, j), a, b));
    }
}

proof fn lemma_proj_eval(nx: int, m: int, vx: int, vy: int)
    by (nonlinear_arith)
    requires
        nx == 0,
    ensures
        nx * vx + m * vy == m * vy,
{
}

proof fn lemma_mul_neg_mono(m: int, u: int, v: int)
    by (nonlinear_arith)
    requires
        m <= 0,
        u <= v,
    ensures
        m * v <= m * u,
{
}

proof fn lemma_mul_neg_strict(m: int, u: int, v: int)
    by (nonlinear_arith)
    requires
        m < 0,
        u < v,
    ensures
        m * v < m * u,
{
}

/// A separation guarantee: when an upright rectangle's vertical gap
/// to another rectangle — of any heading — exceeds the other's
/// half-extent sum, the upright rectangle's first edge axis separates
/// the corner projections, so the rectangles do not intersect. (The
/// effective half-height is the half-extent as the fixed-point
/// rotation at sine zero scales it; the half-extent sum bounds how
/// far any rotated corner can stray from its center.)
pub proof fn lemma_vertical_gap_separates(a: Rectangle, b: Rectangle)
    requires
        fx_sin_spec(a.angle as int) == 0,
        fx_mul(fx_half(a.height as int), fx_cos_spec(a.angle as int)) > 0,
        a.y - fx_mul(fx_half(a.height as int), fx_cos_spec(a.angle as int)) > b.y + fx_abs(
            fx_half(b.width as int),
        ) + fx_abs(fx_half(b.height as int)),
    ensures
        !rects_intersect(a, b),
{
    let ca = fx_cos_spec(a.angle as int);
    let sb = fx_sin_spec(b.angle as int);
    let cb = fx_cos_spec(b.angle as int);
    let w2a = fx_half(a.width as int);
    let h2a = fx_half(a.height as int);
    let w2b = fx_half(b.width as int);
    let h2b = fx_half(b.height as int);
    let hca = fx_mul(h2a, ca);
    let rb = fx_abs(w2b) + fx_abs(h2b);
    assert(w2a * 0 == 0 && h2a * 0 == 0 && (-w2a) * 0 == 0 && (-h2a) * 0 == 0)
        by (nonlinear_arith);
    lemma_fx_mul_neg_left(w2a, ca);
    lemma_fx_mul_neg_left(h2a, ca);
    assert(vertex_spec(a, 0).1 == a.y + hca);
    assert(vertex_spec(a, 1).1 == a.y - hca);
    assert(vertex_spec(a, 2).1 == a.y - hca);
    assert(vertex_spec(a, 3).1 == a.y + hca);
    lemma_fx_sin_spec_bounds(b.angle as int);
    lemma_fx_cos_spec_bounds(b.angle as int);
    lemma_fx_mul_unit_bound(w2b, sb);
    lemma_fx_mul_unit_bound(h2b, cb);
    lemma_fx_mul_unit_bound(-w2b, sb);
    lemma_fx_mul_unit_bound(-h2b, cb);
    assert forall|i: int| 0 <= i < 4 implies b.y - rb <= #[trigger] vertex_spec(b, i).1 <= b.y
        + rb by {
        lemma_fx_mul_unit_bound(corner_offset(b, i).0, sb);
        lemma_fx_mul_unit_bound(corner_offset(b, i).1, cb);
    }
    let n = axis_spec(a, 0);
    assert(n.0 == 0);
    assert(n.1 == -2 * hca);
    let m = n.1;
    lemma_proj_eval(n.0, m, vertex_spec(a, 0).0, vertex_spec(a, 0).1);
    lemma_proj_eval(n.0, m, vertex_spec(a, 1).0, vertex_spec(a, 1).1);
    lemma_proj_eval(n.0, m, vertex_spec(a, 2).0, vertex_spec(a, 2).1);
    lemma_proj_eval(n.0, m, vertex_spec(a, 3).0, vertex_spec(a, 3).1);
    lemma_proj_eval(n.0, m, vertex_spec(b, 0).0, vertex_spec(b, 0).1);
    lemma_proj_eval(n.0, m, vertex_spec(b, 1).0, vertex_spec(b, 1).1);
    lemma_proj_eval(n.0, m, vertex_spec(b, 2).0, vertex_spec(b, 2).1);
    lemma_proj_eval(n.0, m, vertex_spec(b, 3).0, vertex_spec(b, 3).1);
    lemma_mul_neg_mono(m, a.y - hca, a.y + hca);
    lemma_mul_neg_mono(m, vertex_spec(b, 0).1, b.y + rb);
    lemma_mul_neg_mono(m, vertex_spec(b, 1).1, b.y + rb);
    lemma_mul_neg_mono(m, vertex_spec(b, 2).1, b.y + rb);
    lemma_mul_neg_mono(m, vertex_spec(b, 3).1, b.y + rb);
    lemma_mul_neg_strict(m, b.y + rb, a.y - hca);
    assert(max_proj(a, n) == m * (a.y - hca));
    assert(min_proj(b, n) >= m * (b.y + rb));
    assert(axis_separates(sat_axis(a, b, 0), a, b));
    assert(rects_separated(a, b));
}

} // verus!
