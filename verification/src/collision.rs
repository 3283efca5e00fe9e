//! Oriented collision rectangles and their overlap test, by the
//! separating-axis criterion, in exact integer arithmetic.

use vstd::prelude::*;

use crate::components::Transform2;
use crate::math::{Vec2, COORD_LIMIT};

verus! {

/// An oriented rectangle for overlap testing: a center, the near-unit
/// facing of its width axis (scale 1000), and half extents in
/// milli-units.
#[derive(Clone, Copy, Debug, PartialEq, Eq, Structural)]
pub struct RectShape {
    pub center: Vec2,
    pub facing: Vec2,
    pub half_w: i64,
    pub half_h: i64,
}

impl RectShape {
    pub open spec fn wf(self) -> bool {
        &&& self.center.bounded(COORD_LIMIT as int)
        &&& self.facing.is_near_unit()
        &&& self.facing.bounded(1001)
        &&& 0 <= self.half_w <= COORD_LIMIT
        &&& 0 <= self.half_h <= COORD_LIMIT
    }
}

/// The collision rectangle derived from a transform and a full size in
/// milli-units (half extents round down).
pub open spec fn rect_of(t: Transform2, size: Vec2) -> RectShape {
    RectShape {
        center: t.translation,
        facing: t.facing,
        half_w: (size.x / 2) as i64,
        half_h: (size.y / 2) as i64,
    }
}

/// Derives the collision rectangle of a transform and a full size.
pub fn rect_from(t: &Transform2, size: &Vec2) -> (r: RectShape)
    requires
        0 <= size.x,
        0 <= size.y,
    ensures
        r == rect_of(*t, *size),
        t.wf() && size.x <= COORD_LIMIT && size.y <= COORD_LIMIT ==> r.wf(),
{
    RectShape {
        center: t.translation,
        facing: t.facing,
        half_w: ((size.x as u64) / 2) as i64,
        half_h: ((size.y as u64) / 2) as i64,
    }
}

/// The dot product of two plane vectors.
pub open spec fn dot(a: Vec2, b: Vec2) -> int {
    a.x * b.x + a.y * b.y
}

/// The perpendicular of a vector: a quarter turn toward positive
/// orientation.
pub open spec fn perp(a: Vec2) -> Vec2 {
    Vec2 { x: (-a.y) as i64, y: a.x }
}

/// The magnitude of an integer.
pub open spec fn mag(x: int) -> int {
    if x >= 0 {
        x
    } else {
        -x
    }
}

/// The reach of rectangle `r` when projected on `axis`: the half
/// extents weighted by how the axis meets the rectangle's own frame.
/// Facings carry scale 1000, so a reach carries the axis's scale times
/// 1000.
pub open spec fn reach(axis: Vec2, r: RectShape) -> int {
    mag(dot(axis, r.facing)) * r.half_w + mag(dot(axis, perp(r.facing))) * r.half_h
}

/// The two rectangles admit `axis` as a separating axis: the projected
/// distance of the centers exceeds the sum of the projected reaches.
/// The center distance carries the axis's scale alone, so it is
/// multiplied by 1000 to match the scale of the reaches.
pub open spec fn separated_on(axis: Vec2, p: RectShape, q: RectShape) -> bool {
    mag(dot(axis, Vec2 { x: (q.center.x - p.center.x) as i64, y: (q.center.y - p.center.y) as i64 }))
        * 1000 > reach(axis, p) + reach(axis, q)
}

/// The rectangles overlap: none of the four candidate axes (each
/// rectangle's facing and its perpendicular) separates them.
pub open spec fn rects_overlap(p: RectShape, q: RectShape) -> bool {
    &&& !separated_on(p.facing, p, q)
    &&& !separated_on(perp(p.facing), p, q)
    &&& !separated_on(q.facing, p, q)
    &&& !separated_on(perp(q.facing), p, q)
}

/// The magnitude of an `i64` that is not the least one.
fn abs_i64(x: i64) -> (r: i64)
    requires
        i64::MIN < x,
    ensures
        r == mag(x as int),
{
    if x >= 0 {
        x
    } else {
        -x
    }
}

/// Whether `axis` separates `p` and `q`. The bounds of well-formed
/// rectangles keep every product within `i64`.
fn separated_on_exec(axis: Vec2, p: &RectShape, q: &RectShape) -> (r: bool)
    requires
        axis.bounded(2002),
        p.wf(),
        q.wf(),
    ensures
        r == separated_on(axis, *p, *q),
{
    proof {
        lemma_reach_bounds(axis, *p);
        lemma_reach_bounds(axis, *q);
    }
    let dx: i64 = q.center.x - p.center.x;
    let dy: i64 = q.center.y - p.center.y;
    proof {
        assert(-4_300_000_000_000 <= axis.x as int * dx as int <= 4_300_000_000_000
            && -4_300_000_000_000 <= axis.y as int * dy as int <= 4_300_000_000_000)
            by (nonlinear_arith)
            requires
                -2002 <= axis.x <= 2002,
                -2002 <= axis.y <= 2002,
                -2_147_483_648 <= dx <= 2_147_483_648,
                -2_147_483_648 <= dy <= 2_147_483_648,
        ;
    }
    let sep: i64 = abs_i64(axis.x * dx + axis.y * dy);
    let reach_p: i64 = reach_exec(axis, p);
    let reach_q: i64 = reach_exec(axis, q);
    sep * 1000 > reach_p + reach_q
}

/// The projected reach of a well-formed rectangle on a bounded axis.
fn reach_exec(axis: Vec2, r: &RectShape) -> (o: i64)
    requires
        axis.bounded(2002),
        r.wf(),
    ensures
        o == reach(axis, *r),
        0 <= o <= 9_000_000_000_000_000,
{
    proof {
        lemma_reach_bounds(axis, *r);
        assert(-2_004_002 <= axis.x as int * r.facing.x as int <= 2_004_002
            && -2_004_002 <= axis.y as int * r.facing.y as int <= 2_004_002
            && -2_004_002 <= axis.x as int * (-r.facing.y as int) <= 2_004_002
            && -2_004_002 <= axis.y as int * r.facing.x as int <= 2_004_002)
            by (nonlinear_arith)
            requires
                -2002 <= axis.x <= 2002,
                -2002 <= axis.y <= 2002,
                -1001 <= r.facing.x <= 1001,
                -1001 <= r.facing.y <= 1001,
        ;
    }
    let along: i64 = abs_i64(axis.x * r.facing.x + axis.y * r.facing.y);
    let across: i64 = abs_i64(axis.x * (-r.facing.y) + axis.y * r.facing.x);
    along * r.half_w + across * r.half_h
}

/// Bounds every quantity of the projection arithmetic: with an axis
/// bounded by 2002 and a well-formed rectangle, dot products stay below
/// 2^53 and reaches below 9 * 10^15.
proof fn lemma_reach_bounds(axis: Vec2, r: RectShape)
    requires
        axis.bounded(2002),
        r.wf(),
    ensures
        -4_008_004 <= dot(axis, r.facing) <= 4_008_004,
        -4_008_004 <= dot(axis, perp(r.facing)) <= 4_008_004,
        0 <= reach(axis, r) <= 9_000_000_000_000_000,
{
    assert(-4_008_004 <= dot(axis, r.facing) <= 4_008_004 && -4_008_004 <= dot(
        axis,
        perp(r.facing),
    ) <= 4_008_004) by (nonlinear_arith)
        requires
            axis.bounded(2002),
            r.facing.bounded(1001),
    ;
    assert(0 <= mag(dot(axis, r.facing)) * r.half_w <= 4_008_004 * 1_073_741_824)
        by (nonlinear_arith)
        requires
            -4_008_004 <= dot(axis, r.facing) <= 4_008_004,
            0 <= r.half_w <= 1_073_741_824,
    ;
    assert(0 <= mag(dot(axis, perp(r.facing))) * r.half_h <= 4_008_004 * 1_073_741_824)
        by (nonlinear_arith)
        requires
            -4_008_004 <= dot(axis, perp(r.facing)) <= 4_008_004,
            0 <= r.half_h <= 1_073_741_824,
    ;
}

/// Tests whether two well-formed rectangles overlap, by the
/// separating-axis criterion over the four candidate axes.
pub fn overlaps(p: &RectShape, q: &RectShape) -> (r: bool)
    requires
        p.wf(),
        q.wf(),
    ensures
        r == rects_overlap(*p, *q),
{
    let p_perp = Vec2 { x: -p.facing.y, y: p.facing.x };
    let q_perp = Vec2 { x: -q.facing.y, y: q.facing.x };
    let a = separated_on_exec(p.facing, p, q);
    let b = separated_on_exec(p_perp, p, q);
    let c = separated_on_exec(q.facing, p, q);
    let d = separated_on_exec(q_perp, p, q);
    !a && !b && !c && !d
}

} // verus!
