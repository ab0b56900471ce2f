use vstd::prelude::*;

verus! {

/// Largest magnitude of a coordinate, a half extent or a radius.
pub const MAX_COORD: i64 = 1_099_511_627_776;

/// A point of the world plane, in thousandths of a world unit.
#[derive(Clone, Copy, PartialEq, Eq, Structural, Debug)]
pub struct Point {
    pub x: i64,
    pub y: i64,
}

/// An axis-aligned box given by its center and its half extents.
#[derive(Clone, Copy, PartialEq, Eq, Structural, Debug)]
pub struct Aabb {
    pub center: Point,
    pub half_x: i64,
    pub half_y: i64,
}

pub open spec fn coord_ok(v: int) -> bool {
    -MAX_COORD <= v <= MAX_COORD
}

impl Point {
    pub open spec fn wf(self) -> bool {
        coord_ok(self.x as int) && coord_ok(self.y as int)
    }

    pub fn new(x: i64, y: i64) -> (r: Point)
        ensures
            r.x == x,
            r.y == y,
    {
        Point { x, y }
    }
}

impl Aabb {
    pub open spec fn wf(self) -> bool {
        self.center.wf() && 0 <= self.half_x <= MAX_COORD && 0 <= self.half_y <= MAX_COORD
    }

    pub fn new(center: Point, half_x: i64, half_y: i64) -> (r: Aabb)
        ensures
            r.center == center,
            r.half_x == half_x,
            r.half_y == half_y,
    {
        Aabb { center, half_x, half_y }
    }
}

pub open spec fn clamp(v: int, lo: int, hi: int) -> int {
    if v < lo {
        lo
    } else if v > hi {
        hi
    } else {
        v
    }
}

pub open spec fn dist_sq(a: Point, b: Point) -> int {
    (a.x - b.x) * (a.x - b.x) + (a.y - b.y) * (a.y - b.y)
}

/// The point of the box nearest to `p`.
pub open spec fn closest_point(b: Aabb, p: Point) -> (int, int) {
    (
        clamp(p.x as int, b.center.x - b.half_x, b.center.x + b.half_x),
        clamp(p.y as int, b.center.y - b.half_y, b.center.y + b.half_y),
    )
}

/// Whether the closed disc of radius `r` around `c` meets the closed box `b`.
pub open spec fn circle_hits_box(c: Point, r: int, b: Aabb) -> bool {
    let q = closest_point(b, c);
    (c.x - q.0) * (c.x - q.0) + (c.y - q.1) * (c.y - q.1) <= r * r
}

fn clamp_exec(v: i64, lo: i64, hi: i64) -> (r: i64)
    ensures
        r == clamp(v as int, lo as int, hi as int),
{
    if v < lo {
        lo
    } else if v > hi {
        hi
    } else {
        v
    }
}

/// Circle–box intersection by clamping the circle's center into the box and
/// comparing the squared distance with the squared radius.
pub fn circle_intersects_box(center: Point, radius: i64, b: Aabb) -> (r: bool)
    requires
        center.wf(),
        b.wf(),
        0 <= radius <= MAX_COORD,
    ensures
        r == circle_hits_box(center, radius as int, b),
{
    let qx = clamp_exec(center.x, b.center.x - b.half_x, b.center.x + b.half_x);
    let qy = clamp_exec(center.y, b.center.y - b.half_y, b.center.y + b.half_y);
    let dx = center.x as i128 - qx as i128;
    let dy = center.y as i128 - qy as i128;
    assert(-4 * MAX_COORD <= dx <= 4 * MAX_COORD);
    assert(-4 * MAX_COORD <= dy <= 4 * MAX_COORD);
    assert(dx * dx <= 16 * MAX_COORD * MAX_COORD) by (nonlinear_arith)
        requires -4 * MAX_COORD <= dx <= 4 * MAX_COORD;
    assert(dy * dy <= 16 * MAX_COORD * MAX_COORD) by (nonlinear_arith)
        requires -4 * MAX_COORD <= dy <= 4 * MAX_COORD;
    assert(0 <= dx * dx && 0 <= dy * dy) by (nonlinear_arith);
    assert(radius * radius <= MAX_COORD * MAX_COORD) by (nonlinear_arith)
        requires 0 <= radius <= MAX_COORD;
    let rr = radius as i128;
    dx * dx + dy * dy <= rr * rr
}

} // verus!
