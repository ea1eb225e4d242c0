use vstd::prelude::*;
use crate::geometry::{
    Point, Transform, Vertex, doubled_area, input_point, local_point, pt,
};
use crate::earclip::{push_subpath_fill, subpath_fill};
use crate::sqrt::{isqrt, isqrt_u128};
use crate::style::Color;
use vstd::arithmetic::div_mod::{lemma_fundamental_div_mod, lemma_mod_pos_bound};

verus! {

/// One triangle of a triangle list, in local space.
#[derive(Clone, Copy, Debug, PartialEq, Eq, Structural)]
pub struct Triangle {
    pub a: Point,
    pub b: Point,
    pub c: Point,
}

pub open spec fn tri(a: Point, b: Point, c: Point) -> Triangle {
    Triangle { a, b, c }
}

pub open spec fn local_triangle(t: Triangle) -> bool {
    local_point(t.a) && local_point(t.b) && local_point(t.c)
}

pub open spec fn all_local(s: Seq<Triangle>) -> bool {
    forall|i: int| 0 <= i < s.len() ==> local_triangle(#[trigger] s[i])
}

pub open spec fn all_input(s: Seq<Point>) -> bool {
    forall|i: int| 0 <= i < s.len() ==> input_point(#[trigger] s[i])
}

/// Sum of the doubled signed areas of a triangle list.
pub open spec fn total_doubled_area(s: Seq<Triangle>) -> int
    decreases s.len(),
{
    if s.len() == 0 {
        0
    } else {
        total_doubled_area(s.drop_last()) + doubled_area(s.last().a, s.last().b, s.last().c)
    }
}

/// The quad `a b c d` as the two triangles `a b c` and `a c d`.
pub open spec fn quad(a: Point, b: Point, c: Point, d: Point) -> Seq<Triangle> {
    seq![tri(a, b, c), tri(a, c, d)]
}

/// The axis-aligned box with corners `(x, y)` and `(x + w, y + h)`.
pub open spec fn box_fill(x: int, y: int, w: int, h: int) -> Seq<Triangle> {
    quad(pt(x, y), pt(x + w, y), pt(x + w, y + h), pt(x, y + h))
}

/// The border of a box as four bands of width `sw` laid inside its edges:
/// top, bottom, left, right. A box of zero width or height is degenerate and
/// strokes nothing.
pub open spec fn box_stroke(x: int, y: int, w: int, h: int, sw: int) -> Seq<Triangle> {
    if w == 0 || h == 0 {
        Seq::empty()
    } else {
        box_fill(x, y, w, sw) + box_fill(x, y + h - sw, w, sw) + box_fill(x, y, sw, h) + box_fill(
            x + w - sw,
            y,
            sw,
            h,
        )
    }
}

/// `v * k / len` rounded to the nearest whole number, halves away from
/// zero; zero for a zero `len`.
pub open spec fn scaled(v: int, k: int, len: int) -> int {
    if len <= 0 {
        0
    } else if v >= 0 {
        (2 * v * k + len) / (2 * len)
    } else {
        -((2 * (-v) * k + len) / (2 * len))
    }
}

/// The length of the segment from `p` to `q`, rounded down.
pub open spec fn segment_length(p: Point, q: Point) -> int {
    isqrt(((q.x - p.x) * (q.x - p.x) + (q.y - p.y) * (q.y - p.y)) as nat) as int
}

/// Offset of the side of a segment's band that lies against the normal
/// `(-(q.y - p.y), q.x - p.x)`: the normal scaled to length `sw / 2`, each
/// coordinate rounded to the nearest unit.
pub open spec fn offset_lo(p: Point, q: Point, sw: int) -> Point {
    let len = segment_length(p, q);
    pt(scaled(-(q.y - p.y), sw / 2, len), scaled(q.x - p.x, sw / 2, len))
}

/// Offset of the side along the normal: the normal scaled to length
/// `sw - sw / 2`.
pub open spec fn offset_hi(p: Point, q: Point, sw: int) -> Point {
    let len = segment_length(p, q);
    pt(scaled(-(q.y - p.y), sw - sw / 2, len), scaled(q.x - p.x, sw - sw / 2, len))
}

pub open spec fn plus(p: Point, o: Point) -> Point {
    pt(p.x + o.x, p.y + o.y)
}

pub open spec fn minus(p: Point, o: Point) -> Point {
    pt(p.x - o.x, p.y - o.y)
}

/// The quad of width `sw` on the segment from `p` to `q`: its sides run
/// parallel to the segment at `offset_lo` and `offset_hi`. For an even `sw`
/// the band is centered on the segment; corners are whole units, so for an
/// odd `sw` it lies half a unit toward the normal (width 1: from the segment
/// to one unit along the normal). A segment of length zero gives a quad of
/// zero area.
pub open spec fn segment_quad(p: Point, q: Point, sw: int) -> Seq<Triangle> {
    let lo = offset_lo(p, q, sw);
    let hi = offset_hi(p, q, sw);
    quad(minus(p, lo), minus(q, lo), plus(q, hi), plus(p, hi))
}

/// The bevel join at `b` between the segments `a b` and `b c`: on each side,
/// the triangle from `b` across the gap between the two bands' corners.
pub open spec fn bevel_join(a: Point, b: Point, c: Point, sw: int) -> Seq<Triangle> {
    seq![
        tri(b, plus(b, offset_hi(a, b, sw)), plus(b, offset_hi(b, c, sw))),
        tri(b, minus(b, offset_lo(a, b, sw)), minus(b, offset_lo(b, c, sw))),
    ]
}

/// Ring point `i` for `i` up to twice the ring's length, wrapping once.
pub open spec fn ring_at(ring: Seq<Point>, i: int) -> Point {
    if i < ring.len() {
        ring[i]
    } else {
        ring[i - ring.len()]
    }
}

/// The first `k` triangles of the fan from `c` around the closed ring.
pub open spec fn fan(c: Point, ring: Seq<Point>, k: nat) -> Seq<Triangle>
    decreases k,
{
    if k == 0 {
        Seq::empty()
    } else {
        fan(c, ring, (k - 1) as nat).push(tri(c, ring[k - 1], ring_at(ring, k as int)))
    }
}

/// The quads of the first `k` edges of the closed ring: a closed polyline
/// of quads, one per edge, with no joins.
pub open spec fn ring_stroke(ring: Seq<Point>, sw: int, k: nat) -> Seq<Triangle>
    decreases k,
{
    if k == 0 {
        Seq::empty()
    } else {
        ring_stroke(ring, sw, (k - 1) as nat) + segment_quad(ring[k - 1], ring_at(ring, k as int), sw)
    }
}

/// The first `k` segments of an open subpath, each as the bevel join at its
/// start (from the second segment on) followed by its quad.
pub open spec fn subpath_segments(s: Seq<Point>, sw: int, k: nat) -> Seq<Triangle>
    decreases k,
{
    if k == 0 {
        Seq::empty()
    } else if k == 1 {
        segment_quad(s[0], s[1], sw)
    } else {
        subpath_segments(s, sw, (k - 1) as nat) + bevel_join(s[k - 2], s[k - 1], s[k as int], sw)
            + segment_quad(s[k - 1], s[k as int], sw)
    }
}

pub open spec fn segment_count(s: Seq<Point>) -> nat {
    if s.len() < 2 {
        0
    } else {
        (s.len() - 1) as nat
    }
}

/// Fill of a path: each subpath, closed implicitly, cut into triangles by
/// ear clipping (`subpath_fill`), in order. For a simple subpath every clipped
/// corner is an ear, so the triangles tile the subpath's interior without
/// overlap: the region the nonzero and even-odd rules both fill; their areas
/// add up to the subpath's shoelace area (`lemma_ear_clip_area`). Subpaths of
/// fewer than three points fill nothing.
pub open spec fn path_fill_triangles(subs: Seq<Seq<Point>>) -> Seq<Triangle>
    decreases subs.len(),
{
    if subs.len() == 0 {
        Seq::empty()
    } else {
        path_fill_triangles(subs.drop_last()) + subpath_fill(subs.last())
    }
}

/// Stroke of a path: one quad per segment of each subpath, with a bevel join
/// between consecutive segments, in order.
pub open spec fn path_stroke_triangles(subs: Seq<Seq<Point>>, sw: int) -> Seq<Triangle>
    decreases subs.len(),
{
    if subs.len() == 0 {
        Seq::empty()
    } else {
        path_stroke_triangles(subs.drop_last(), sw) + subpath_segments(
            subs.last(),
            sw,
            segment_count(subs.last()),
        )
    }
}

pub open spec fn vertex_of(p: Point, color: Color) -> Vertex {
    Vertex { position: p, r: color.r, g: color.g, b: color.b }
}

/// The vertex list of a triangle list: three vertices per triangle, each
/// point mapped through `t` and given `color`'s RGB.
pub open spec fn shade_spec(s: Seq<Triangle>, color: Color, t: Transform) -> Seq<Vertex>
    decreases s.len(),
{
    if s.len() == 0 {
        Seq::empty()
    } else {
        shade_spec(s.drop_last(), color, t) + seq![
            vertex_of(t.map(s.last().a), color),
            vertex_of(t.map(s.last().b), color),
            vertex_of(t.map(s.last().c), color),
        ]
    }
}

fn push_quad(out: &mut Vec<Triangle>, a: Point, b: Point, c: Point, d: Point)
    requires
        all_local(old(out)@),
        local_point(a),
        local_point(b),
        local_point(c),
        local_point(d),
    ensures
        final(out)@ == old(out)@ + quad(a, b, c, d),
        all_local(final(out)@),
{
    out.push(Triangle { a, b, c });
    out.push(Triangle { a, b: c, c: d });
    assert(out@ =~= old(out)@ + quad(a, b, c, d));
}

fn push_box(out: &mut Vec<Triangle>, x: i64, y: i64, w: i64, h: i64)
    requires
        all_local(old(out)@),
        -0x1_8000_0000 <= x <= 0x1_8000_0000,
        -0x1_8000_0000 <= y <= 0x1_8000_0000,
        -0x1_8000_0000 <= w <= 0x1_8000_0000,
        -0x1_8000_0000 <= h <= 0x1_8000_0000,
    ensures
        final(out)@ == old(out)@ + box_fill(x as int, y as int, w as int, h as int),
        all_local(final(out)@),
{
    push_quad(
        out,
        Point { x, y },
        Point { x: x + w, y },
        Point { x: x + w, y: y + h },
        Point { x, y: y + h },
    );
}

/// The two triangles that fill the box at `(x, y)` of size `w` by `h`.
pub fn rect_fill_triangles(x: i32, y: i32, w: i32, h: i32) -> (r: Vec<Triangle>)
    ensures
        r@ == box_fill(x as int, y as int, w as int, h as int),
        r@.len() == 2,
        all_local(r@),
{
    let mut out: Vec<Triangle> = Vec::new();
    push_box(&mut out, x as i64, y as i64, w as i64, h as i64);
    assert(out@ =~= box_fill(x as int, y as int, w as int, h as int));
    out
}

/// The eight triangles (four bands) that stroke the border of the box; none
/// for a box of zero width or height.
pub fn rect_stroke_triangles(x: i32, y: i32, w: i32, h: i32, sw: u16) -> (r: Vec<Triangle>)
    ensures
        r@ == box_stroke(x as int, y as int, w as int, h as int, sw as int),
        w != 0 && h != 0 ==> r@.len() == 8,
        w == 0 || h == 0 ==> r@.len() == 0,
        all_local(r@),
{
    let mut out: Vec<Triangle> = Vec::new();
    if w == 0 || h == 0 {
        return out;
    }
    let (x, y, w, h, s) = (x as i64, y as i64, w as i64, h as i64, sw as i64);
    push_box(&mut out, x, y, w, s);
    push_box(&mut out, x, y + h - s, w, s);
    push_box(&mut out, x, y, s, h);
    push_box(&mut out, x + w - s, y, s, h);
    assert(out@ =~= box_stroke(x as int, y as int, w as int, h as int, sw as int));
    out
}

fn scale(v: i64, k: u16, len: u64) -> (r: i64)
    requires
        -len <= v <= len,
        len <= 0x2_0000_0000,
    ensures
        r == scaled(v as int, k as int, len as int),
        -k <= r <= k,
{
    if len == 0 {
        return 0;
    }
    let m: u64 = if v >= 0 { v as u64 } else { (-v) as u64 };
    proof {
        assert(2 * m * k + len <= 2 * len * k + len) by (nonlinear_arith)
            requires
                m <= len,
                k >= 0,
        ;
        assert(2 * len * k + len <= 0x4_0000_0000 * 0x1_0000 + 0x2_0000_0000) by (nonlinear_arith)
            requires
                len <= 0x2_0000_0000,
                0 <= k <= 0x1_0000,
        ;
    }
    let x: u64 = 2 * m * (k as u64) + len;
    let d: u64 = 2 * len;
    let t: u64 = x / d;
    proof {
        lemma_fundamental_div_mod(x as int, d as int);
        lemma_mod_pos_bound(x as int, d as int);
        assert(t <= k) by (nonlinear_arith)
            requires
                x == d * t + (x % d),
                0 <= x % d,
                x <= d * k + len,
                d == 2 * len,
                len > 0,
                t >= 0,
        ;
    }
    if v >= 0 {
        t as i64
    } else {
        -(t as i64)
    }
}

pub open spec fn small_offset(o: Point) -> bool {
    -0x1_0000 <= o.x <= 0x1_0000 && -0x1_0000 <= o.y <= 0x1_0000
}

/// The two side offsets of the segment from `p` to `q`.
fn segment_offsets(p: Point, q: Point, sw: u16) -> (r: (Point, Point))
    requires
        input_point(p),
        input_point(q),
    ensures
        r.0 == offset_lo(p, q, sw as int),
        r.1 == offset_hi(p, q, sw as int),
        small_offset(r.0),
        small_offset(r.1),
{
    let dx: i64 = q.x - p.x;
    let dy: i64 = q.y - p.y;
    let adx: u128 = if dx < 0 { (-dx) as u128 } else { dx as u128 };
    let ady: u128 = if dy < 0 { (-dy) as u128 } else { dy as u128 };
    proof {
        assert(adx * adx <= 0x1_0000_0000_0000_0000 && ady * ady <= 0x1_0000_0000_0000_0000)
            by (nonlinear_arith)
            requires
                0 <= adx <= 0x1_0000_0000,
                0 <= ady <= 0x1_0000_0000,
        ;
        assert(adx * adx == dx * dx && ady * ady == dy * dy) by (nonlinear_arith)
            requires
                adx == dx || adx == -dx,
                ady == dy || ady == -dy,
        ;
    }
    let len = isqrt_u128(adx * adx + ady * ady);
    proof {
        assert(adx <= len && ady <= len) by (nonlinear_arith)
            requires
                adx * adx + ady * ady < (len + 1) * (len + 1),
                adx >= 0,
                ady >= 0,
                len >= 0,
        ;
        assert(len <= 0x2_0000_0000) by (nonlinear_arith)
            requires
                len * len <= adx * adx + ady * ady,
                adx * adx + ady * ady <= 0x2_0000_0000_0000_0000,
                len >= 0,
        ;
    }
    proof {
        assert(len as int == segment_length(p, q));
    }
    let lo: u16 = sw / 2;
    let hi: u16 = sw - lo;
    let (nx, ny) = (-dy, dx);
    (
        Point { x: scale(nx, lo, len), y: scale(ny, lo, len) },
        Point { x: scale(nx, hi, len), y: scale(ny, hi, len) },
    )
}

fn push_segment(out: &mut Vec<Triangle>, p: Point, q: Point, sw: u16)
    requires
        all_local(old(out)@),
        input_point(p),
        input_point(q),
    ensures
        final(out)@ == old(out)@ + segment_quad(p, q, sw as int),
        all_local(final(out)@),
{
    let (lo, hi) = segment_offsets(p, q, sw);
    push_quad(
        out,
        Point { x: p.x - lo.x, y: p.y - lo.y },
        Point { x: q.x - lo.x, y: q.y - lo.y },
        Point { x: q.x + hi.x, y: q.y + hi.y },
        Point { x: p.x + hi.x, y: p.y + hi.y },
    );
}

fn push_join(out: &mut Vec<Triangle>, a: Point, b: Point, c: Point, sw: u16)
    requires
        all_local(old(out)@),
        input_point(a),
        input_point(b),
        input_point(c),
    ensures
        final(out)@ == old(out)@ + bevel_join(a, b, c, sw as int),
        all_local(final(out)@),
{
    let (lo1, hi1) = segment_offsets(a, b, sw);
    let (lo2, hi2) = segment_offsets(b, c, sw);
    out.push(
        Triangle {
            a: b,
            b: Point { x: b.x + hi1.x, y: b.y + hi1.y },
            c: Point { x: b.x + hi2.x, y: b.y + hi2.y },
        },
    );
    out.push(
        Triangle {
            a: b,
            b: Point { x: b.x - lo1.x, y: b.y - lo1.y },
            c: Point { x: b.x - lo2.x, y: b.y - lo2.y },
        },
    );
    assert(out@ =~= old(out)@ + bevel_join(a, b, c, sw as int));
}

/// The fan from `c` over the closed ring: one triangle per ring point.
pub fn fan_triangles(c: Point, ring: &Vec<Point>) -> (r: Vec<Triangle>)
    requires
        input_point(c),
        all_input(ring@),
        ring@.len() > 0,
    ensures
        r@ == fan(c, ring@, ring@.len()),
        r@.len() == ring@.len(),
        all_local(r@),
{
    let n = ring.len();
    let mut out: Vec<Triangle> = Vec::new();
    let mut i: usize = 0;
    while i < n
        invariant
            n == ring@.len(),
            n > 0,
            i <= n,
            input_point(c),
            all_input(ring@),
            out@ == fan(c, ring@, i as nat),
            out@.len() == i,
            all_local(out@),
        decreases n - i,
    {
        let next = if i + 1 < n { ring[i + 1] } else { ring[i + 1 - n] };
        out.push(Triangle { a: c, b: ring[i], c: next });
        i = i + 1;
    }
    out
}

/// The closed outline through the ring: one quad of width `sw` per edge.
pub fn ring_stroke_triangles(ring: &Vec<Point>, sw: u16) -> (r: Vec<Triangle>)
    requires
        all_input(ring@),
        ring@.len() >= 1,
    ensures
        r@ == ring_stroke(ring@, sw as int, ring@.len()),
        r@.len() == 2 * ring@.len(),
        all_local(r@),
{
    let n = ring.len();
    let mut out: Vec<Triangle> = Vec::new();
    let mut i: usize = 0;
    while i < n
        invariant
            n == ring@.len(),
            n >= 1,
            i <= n,
            all_input(ring@),
            out@ == ring_stroke(ring@, sw as int, i as nat),
            out@.len() == 2 * i,
            all_local(out@),
        decreases n - i,
    {
        let next = if i + 1 < n { ring[i + 1] } else { ring[i + 1 - n] };
        push_segment(&mut out, ring[i], next, sw);
        i = i + 1;
    }
    out
}

/// Appends the segment quads of one subpath.
fn push_subpath_segments(out: &mut Vec<Triangle>, s: &Vec<Point>, sw: u16)
    requires
        all_local(old(out)@),
        all_input(s@),
    ensures
        final(out)@ == old(out)@ + subpath_segments(s@, sw as int, segment_count(s@)),
        all_local(final(out)@),
{
    let ghost start = out@;
    if s.len() < 2 {
        assert(out@ =~= start + subpath_segments(s@, sw as int, 0));
        return;
    }
    let count = s.len() - 1;
    let mut k: usize = 0;
    while k < count
        invariant
            count + 1 == s@.len(),
            s@.len() <= usize::MAX,
            k <= count,
            all_input(s@),
            out@ == start + subpath_segments(s@, sw as int, k as nat),
            all_local(out@),
        decreases count - k,
    {
        if k > 0 {
            push_join(out, s[k - 1], s[k], s[k + 1], sw);
        }
        push_segment(out, s[k], s[k + 1], sw);
        k = k + 1;
        assert(out@ =~= start + subpath_segments(s@, sw as int, k as nat));
    }
}

pub open spec fn views(subs: Seq<Vec<Point>>) -> Seq<Seq<Point>> {
    subs.map_values(|v: Vec<Point>| v@)
}

pub open spec fn all_input_paths(subs: Seq<Seq<Point>>) -> bool {
    forall|i: int| 0 <= i < subs.len() ==> all_input(#[trigger] subs[i])
}

/// The fill triangles of a list of subpaths.
pub fn path_fill(subs: &Vec<Vec<Point>>) -> (r: Vec<Triangle>)
    requires
        all_input_paths(views(subs@)),
    ensures
        r@ == path_fill_triangles(views(subs@)),
        all_local(r@),
{
    let mut out: Vec<Triangle> = Vec::new();
    let mut i: usize = 0;
    while i < subs.len()
        invariant
            i <= subs@.len(),
            all_input_paths(views(subs@)),
            out@ == path_fill_triangles(views(subs@).take(i as int)),
            all_local(out@),
        decreases subs@.len() - i,
    {
        let ghost before = views(subs@).take(i as int);
        assert(subs[i as int]@ == views(subs@)[i as int]);
        push_subpath_fill(&mut out, &subs[i]);
        i = i + 1;
        assert(views(subs@).take(i as int).drop_last() =~= before);
    }
    assert(views(subs@).take(i as int) =~= views(subs@));
    out
}

/// The stroke triangles of a list of subpaths.
pub fn path_stroke(subs: &Vec<Vec<Point>>, sw: u16) -> (r: Vec<Triangle>)
    requires
        all_input_paths(views(subs@)),
    ensures
        r@ == path_stroke_triangles(views(subs@), sw as int),
        all_local(r@),
{
    let mut out: Vec<Triangle> = Vec::new();
    let mut i: usize = 0;
    while i < subs.len()
        invariant
            i <= subs@.len(),
            all_input_paths(views(subs@)),
            out@ == path_stroke_triangles(views(subs@).take(i as int), sw as int),
            all_local(out@),
        decreases subs@.len() - i,
    {
        let ghost before = views(subs@).take(i as int);
        assert(subs[i as int]@ == views(subs@)[i as int]);
        push_subpath_segments(&mut out, &subs[i], sw);
        i = i + 1;
        assert(views(subs@).take(i as int).drop_last() =~= before);
    }
    assert(views(subs@).take(i as int) =~= views(subs@));
    out
}

/// Maps each triangle through `t` and colors its vertices.
pub fn shade(tris: &Vec<Triangle>, color: Color, t: &Transform) -> (r: Vec<Vertex>)
    requires
        all_local(tris@),
    ensures
        r@ == shade_spec(tris@, color, *t),
        r@.len() == 3 * tris@.len(),
{
    let mut out: Vec<Vertex> = Vec::new();
    let mut i: usize = 0;
    while i < tris.len()
        invariant
            i <= tris@.len(),
            all_local(tris@),
            out@ == shade_spec(tris@.take(i as int), color, *t),
            out@.len() == 3 * i,
        decreases tris@.len() - i,
    {
        let tr = tris[i];
        assert(local_triangle(tris@[i as int]));
        let ghost before = tris@.take(i as int);
        out.push(Vertex { position: t.apply(tr.a), r: color.r, g: color.g, b: color.b });
        out.push(Vertex { position: t.apply(tr.b), r: color.r, g: color.g, b: color.b });
        out.push(Vertex { position: t.apply(tr.c), r: color.r, g: color.g, b: color.b });
        i = i + 1;
        assert(tris@.take(i as int).drop_last() =~= before);
        assert(out@ =~= shade_spec(tris@.take(i as int), color, *t));
    }
    assert(tris@.take(i as int) =~= tris@);
    out
}

/// The two fill triangles of a box have doubled area `2 * w * h`: the box's
/// area `w * h`, zero when either side is zero.
pub proof fn lemma_box_fill_area(x: i32, y: i32, w: i32, h: i32)
    ensures
        box_fill(x as int, y as int, w as int, h as int).len() == 2,
        total_doubled_area(box_fill(x as int, y as int, w as int, h as int)) == 2 * (w * h),
        w == 0 || h == 0 ==> total_doubled_area(box_fill(x as int, y as int, w as int, h as int)) == 0,
{
    let (x, y, w, h) = (x as int, y as int, w as int, h as int);
    let s = box_fill(x, y, w, h);
    let (p0, p1, p2, p3) = (pt(x, y), pt(x + w, y), pt(x + w, y + h), pt(x, y + h));
    assert(p0.x == x && p0.y == y && p1.x == x + w && p1.y == y);
    assert(p2.x == x + w && p2.y == y + h && p3.x == x && p3.y == y + h);
    assert((x + w - x) * (y + h - y) - (x + w - x) * (y - y) == w * h) by (nonlinear_arith);
    assert((x + w - x) * (y + h - y) - (x - x) * (y + h - y) == w * h) by (nonlinear_arith);
    assert(doubled_area(p0, p1, p2) == w * h);
    assert(doubled_area(p0, p2, p3) == w * h);
    assert(s.drop_last().drop_last() =~= Seq::<Triangle>::empty());
    assert(total_doubled_area(s.drop_last().drop_last()) == 0);
    assert(s.drop_last().last() == tri(p0, p1, p2));
    assert(s.last() == tri(p0, p2, p3));
    assert(total_doubled_area(s.drop_last()) == w * h);
    assert(w == 0 || h == 0 ==> w * h == 0) by (nonlinear_arith);
}

} // verus!
