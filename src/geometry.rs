use vstd::prelude::*;

verus! {

/// Largest magnitude of a coordinate in local (pre-transform) space that the
/// transform can map without leaving `i64`: every shape built from `i32`
/// inputs and a `u16` stroke width stays inside it.
pub const LOCAL_LIMIT: i64 = 0x4_0000_0000;

/// A point in whole units.
#[derive(Clone, Copy, Debug, PartialEq, Eq, Structural)]
pub struct Point {
    pub x: i64,
    pub y: i64,
}

/// A point whose coordinates each fit in `i32`: what callers hand in.
pub open spec fn input_point(p: Point) -> bool {
    i32::MIN <= p.x <= i32::MAX && i32::MIN <= p.y <= i32::MAX
}

/// A point that the transform can map without overflow.
pub open spec fn local_point(p: Point) -> bool {
    -LOCAL_LIMIT <= p.x <= LOCAL_LIMIT && -LOCAL_LIMIT <= p.y <= LOCAL_LIMIT
}

/// The point `(x, y)`.
pub open spec fn pt(x: int, y: int) -> Point {
    Point { x: x as i64, y: y as i64 }
}

/// Fixed-point scale of transform entries: an entry `e` stands for the real
/// number `e / FIXED_ONE`.
pub const FIXED_ONE: i32 = 65536;

/// `v / FIXED_ONE` rounded to the nearest whole number, halves away from zero.
pub open spec fn round_fixed(v: int) -> int {
    if v >= 0 {
        (v + 32768) / 65536
    } else {
        -((-v + 32768) / 65536)
    }
}

/// A 2x2 linear map, row-major: `[[m00, m01], [m10, m11]]`, each entry in
/// 16.16 fixed point (`FIXED_ONE` is 1.0), so fractional scales and any
/// rotation can be written to 1/65536. There is no translation part.
#[derive(Clone, Copy, Debug, PartialEq, Eq, Structural)]
pub struct Transform {
    pub m00: i32,
    pub m01: i32,
    pub m10: i32,
    pub m11: i32,
}

impl Transform {
    pub open spec fn identity() -> Transform {
        Transform { m00: 65536, m01: 0, m10: 0, m11: 65536 }
    }

    /// The image of `p` under the matrix, rounded to whole units.
    pub open spec fn map(self, p: Point) -> Point {
        pt(
            round_fixed(self.m00 * p.x + self.m01 * p.y),
            round_fixed(self.m10 * p.x + self.m11 * p.y),
        )
    }

    /// The identity transform.
    pub fn new() -> (r: Transform)
        ensures
            r == Transform::identity(),
    {
        Transform { m00: FIXED_ONE, m01: 0, m10: 0, m11: FIXED_ONE }
    }

    /// Maps a local point through the matrix, rounding to whole units.
    pub fn apply(&self, p: Point) -> (r: Point)
        requires
            local_point(p),
        ensures
            r == self.map(p),
            r.x == round_fixed(self.m00 * p.x + self.m01 * p.y),
            r.y == round_fixed(self.m10 * p.x + self.m11 * p.y),
    {
        let x = round_row(self.m00, self.m01, p);
        let y = round_row(self.m10, self.m11, p);
        Point { x, y }
    }
}

/// One row of the map: `round_fixed(a * p.x + b * p.y)`.
fn round_row(a: i32, b: i32, p: Point) -> (r: i64)
    requires
        local_point(p),
    ensures
        r == round_fixed(a * p.x + b * p.y),
{
    proof {
        lemma_entry_times_coord(a, p.x);
        lemma_entry_times_coord(b, p.y);
    }
    let v: i128 = (a as i128) * (p.x as i128) + (b as i128) * (p.y as i128);
    let m: u128 = if v >= 0 { v as u128 } else { (-v) as u128 };
    let q: u128 = (m + 32768) / 65536;
    assert(q <= 0x10_0000_0000_0000);
    if v >= 0 {
        q as i64
    } else {
        -(q as i64)
    }
}

proof fn lemma_entry_times_coord(m: i32, v: i64)
    requires
        -LOCAL_LIMIT <= v <= LOCAL_LIMIT,
    ensures
        -0x2_0000_0000_0000_0000 <= m * v <= 0x2_0000_0000_0000_0000,
{
    assert(-0x2_0000_0000_0000_0000 <= m * v <= 0x2_0000_0000_0000_0000) by (nonlinear_arith)
        requires
            -0x8000_0000 <= m <= 0x7fff_ffff,
            -0x4_0000_0000 <= v <= 0x4_0000_0000,
    ;
}

/// The default transform maps every point to itself.
pub proof fn lemma_identity_fixes_points(p: Point)
    ensures
        Transform::identity().map(p) == p,
{
    let t = Transform::identity();
    let (x, y) = (p.x as int, p.y as int);
    assert(t.m00 * p.x + t.m01 * p.y == 65536 * x);
    assert(t.m10 * p.x + t.m11 * p.y == 65536 * y);
    assert(round_fixed(65536 * x) == x) by (nonlinear_arith);
    assert(round_fixed(65536 * y) == y) by (nonlinear_arith);
}

/// A vertex as the GPU draws it: a transformed position and an RGB color.
#[derive(Clone, Copy, Debug, PartialEq, Eq, Structural)]
pub struct Vertex {
    pub position: Point,
    pub r: u8,
    pub g: u8,
    pub b: u8,
}

/// Twice the signed area of the triangle `a b c` (positive when counter-clockwise
/// with the y axis pointing up).
pub open spec fn doubled_area(a: Point, b: Point, c: Point) -> int {
    (b.x - a.x) * (c.y - a.y) - (c.x - a.x) * (b.y - a.y)
}

} // verus!
