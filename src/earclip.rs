use vstd::prelude::*;
use crate::geometry::{Point, doubled_area, input_point};
use crate::tessellate::{Triangle, all_input, all_local, total_doubled_area, tri};

verus! {

/// Index before `i` in a closed polygon of `m` points.
pub open spec fn prev_index(m: int, i: int) -> int {
    if i == 0 {
        m - 1
    } else {
        i - 1
    }
}

/// Index after `i` in a closed polygon of `m` points.
pub open spec fn next_index(m: int, i: int) -> int {
    if i + 1 == m {
        0
    } else {
        i + 1
    }
}

/// `a b c` turns the way the polygon runs: counter-clockwise (with the y axis
/// up) when `ccw`, else clockwise. A straight corner turns neither way.
pub open spec fn turns(ccw: bool, a: Point, b: Point, c: Point) -> bool {
    if ccw {
        doubled_area(a, b, c) > 0
    } else {
        doubled_area(a, b, c) < 0
    }
}

/// `p` lies on the inner side of the directed edge `a b`, or on its line.
pub open spec fn inner_or_on(ccw: bool, a: Point, b: Point, p: Point) -> bool {
    if ccw {
        doubled_area(a, b, p) >= 0
    } else {
        doubled_area(a, b, p) <= 0
    }
}

/// `p` lies in the closed triangle `a b c`, taken in the polygon's direction.
pub open spec fn in_triangle(ccw: bool, a: Point, b: Point, c: Point, p: Point) -> bool {
    inner_or_on(ccw, a, b, p) && inner_or_on(ccw, b, c, p) && inner_or_on(ccw, c, a, p)
}

/// Corner `i` of polygon `q` is an ear: it turns the polygon's way, and no
/// other corner of `q` lies in the triangle it makes with its neighbours.
pub open spec fn is_ear(q: Seq<Point>, ccw: bool, i: int) -> bool {
    let m = q.len() as int;
    let a = q[prev_index(m, i)];
    let b = q[i];
    let c = q[next_index(m, i)];
    &&& turns(ccw, a, b, c)
    &&& forall|j: int|
        0 <= j < m && j != prev_index(m, i) && j != i && j != next_index(m, i) ==> !in_triangle(
            ccw,
            a,
            b,
            c,
            #[trigger] q[j],
        )
}

/// The first ear at index `k` or later; 0 when there is none.
pub open spec fn first_ear_from(q: Seq<Point>, ccw: bool, k: int) -> int
    decreases q.len() - k,
{
    if k < 0 || k >= q.len() {
        0
    } else if is_ear(q, ccw, k) {
        k
    } else {
        first_ear_from(q, ccw, k + 1)
    }
}

/// The corner clipped next: the first ear, or corner 0 when the polygon has
/// none (which happens only for polygons that are not simple).
pub open spec fn clip_index(q: Seq<Point>, ccw: bool) -> int {
    let k = first_ear_from(q, ccw, 0);
    if 0 <= k < q.len() {
        k
    } else {
        0
    }
}

pub open spec fn ear_triangle(q: Seq<Point>, i: int) -> Triangle {
    let m = q.len() as int;
    tri(q[prev_index(m, i)], q[i], q[next_index(m, i)])
}

/// Ear clipping: cut off the clipped corner's triangle and go on with the
/// polygon without that corner, down to the last triangle.
pub open spec fn ear_clip(q: Seq<Point>, ccw: bool) -> Seq<Triangle>
    decreases q.len(),
{
    if q.len() < 3 {
        Seq::empty()
    } else if q.len() == 3 {
        seq![tri(q[0], q[1], q[2])]
    } else {
        let i = clip_index(q, ccw);
        seq![ear_triangle(q, i)] + ear_clip(q.remove(i), ccw)
    }
}

/// `a` comes before `b` in the order bottom first, then left first.
pub open spec fn below(a: Point, b: Point) -> bool {
    a.y < b.y || (a.y == b.y && a.x < b.x)
}

/// Index of the lowest (then leftmost) point among `best` and those from `k` on.
pub open spec fn lowest_from(q: Seq<Point>, k: int, best: int) -> int
    decreases q.len() - k,
{
    if k < 0 || k >= q.len() {
        best
    } else if below(q[k], q[best]) {
        lowest_from(q, k + 1, k)
    } else {
        lowest_from(q, k + 1, best)
    }
}

/// The polygon's direction, read at its lowest-leftmost corner, which is
/// convex: counter-clockwise unless that corner turns clockwise.
pub open spec fn orientation(q: Seq<Point>) -> bool {
    let l = lowest_from(q, 1, 0);
    let m = q.len() as int;
    if 0 <= l < m {
        doubled_area(q[prev_index(m, l)], q[l], q[next_index(m, l)]) >= 0
    } else {
        true
    }
}

/// The fill triangles of one closed subpath: its ear clipping.
pub open spec fn subpath_fill(s: Seq<Point>) -> Seq<Triangle> {
    ear_clip(s, orientation(s))
}

fn cross(a: Point, b: Point, c: Point) -> (r: i128)
    requires
        input_point(a),
        input_point(b),
        input_point(c),
    ensures
        r == doubled_area(a, b, c),
{
    let bx = (b.x - a.x) as i128;
    let by = (b.y - a.y) as i128;
    let cx = (c.x - a.x) as i128;
    let cy = (c.y - a.y) as i128;
    assert(-0x1_0000_0000_0000_0000 <= bx * cy <= 0x1_0000_0000_0000_0000) by (nonlinear_arith)
        requires
            -0x1_0000_0000 <= bx <= 0x1_0000_0000,
            -0x1_0000_0000 <= cy <= 0x1_0000_0000,
    ;
    assert(-0x1_0000_0000_0000_0000 <= cx * by <= 0x1_0000_0000_0000_0000) by (nonlinear_arith)
        requires
            -0x1_0000_0000 <= cx <= 0x1_0000_0000,
            -0x1_0000_0000 <= by <= 0x1_0000_0000,
    ;
    bx * cy - cx * by
}

fn turns_exec(ccw: bool, a: Point, b: Point, c: Point) -> (r: bool)
    requires
        input_point(a),
        input_point(b),
        input_point(c),
    ensures
        r == turns(ccw, a, b, c),
{
    let d = cross(a, b, c);
    if ccw {
        d > 0
    } else {
        d < 0
    }
}

fn inner_or_on_exec(ccw: bool, a: Point, b: Point, p: Point) -> (r: bool)
    requires
        input_point(a),
        input_point(b),
        input_point(p),
    ensures
        r == inner_or_on(ccw, a, b, p),
{
    let d = cross(a, b, p);
    if ccw {
        d >= 0
    } else {
        d <= 0
    }
}

fn is_ear_exec(q: &Vec<Point>, ccw: bool, i: usize) -> (r: bool)
    requires
        q@.len() >= 3,
        i < q@.len(),
        all_input(q@),
    ensures
        r == is_ear(q@, ccw, i as int),
{
    let m = q.len();
    let pi = if i == 0 { m - 1 } else { i - 1 };
    let ni = if i + 1 == m { 0 } else { i + 1 };
    let (a, b, c) = (q[pi], q[i], q[ni]);
    if !turns_exec(ccw, a, b, c) {
        return false;
    }
    let mut j: usize = 0;
    while j < m
        invariant
            m == q@.len(),
            j <= m,
            pi == prev_index(m as int, i as int),
            ni == next_index(m as int, i as int),
            0 <= pi < m,
            0 <= ni < m,
            a == q@[pi as int],
            b == q@[i as int],
            c == q@[ni as int],
            all_input(q@),
            forall|k: int|
                0 <= k < j && k != pi && k != i && k != ni ==> !in_triangle(
                    ccw,
                    a,
                    b,
                    c,
                    #[trigger] q@[k],
                ),
        decreases m - j,
    {
        if j != pi && j != i && j != ni {
            let p = q[j];
            if inner_or_on_exec(ccw, a, b, p) && inner_or_on_exec(ccw, b, c, p)
                && inner_or_on_exec(ccw, c, a, p) {
                assert(in_triangle(ccw, a, b, c, q@[j as int]));
                return false;
            }
        }
        j = j + 1;
    }
    true
}

fn clip_index_exec(q: &Vec<Point>, ccw: bool) -> (r: usize)
    requires
        q@.len() >= 3,
        all_input(q@),
    ensures
        r == clip_index(q@, ccw),
        r < q@.len(),
{
    let mut k: usize = 0;
    while k < q.len()
        invariant
            k <= q@.len(),
            q@.len() >= 3,
            all_input(q@),
            first_ear_from(q@, ccw, k as int) == first_ear_from(q@, ccw, 0),
        decreases q@.len() - k,
    {
        if is_ear_exec(q, ccw, k) {
            return k;
        }
        k = k + 1;
    }
    0
}

fn orientation_exec(q: &Vec<Point>) -> (r: bool)
    requires
        q@.len() >= 3,
        all_input(q@),
    ensures
        r == orientation(q@),
{
    let m = q.len();
    let mut best: usize = 0;
    let mut k: usize = 1;
    while k < m
        invariant
            m == q@.len(),
            1 <= k <= m,
            best < k,
            lowest_from(q@, k as int, best as int) == lowest_from(q@, 1, 0),
        decreases m - k,
    {
        let (p, b) = (q[k], q[best]);
        if p.y < b.y || (p.y == b.y && p.x < b.x) {
            best = k;
        }
        k = k + 1;
    }
    let pi = if best == 0 { m - 1 } else { best - 1 };
    let ni = if best + 1 == m { 0 } else { best + 1 };
    cross(q[pi], q[best], q[ni]) >= 0
}

/// Appends the ear clipping of one closed subpath; a subpath of fewer than
/// three points adds nothing, one of `n` points adds `n - 2` triangles whose
/// signed areas add up to the subpath's (shoelace) area. Each clipped corner
/// is an ear of what is left of the subpath whenever it has one; a simple
/// polygon always has one (the two-ears theorem), so for a simple subpath the
/// triangles tile its interior.
pub fn push_subpath_fill(out: &mut Vec<Triangle>, s: &Vec<Point>)
    requires
        all_local(old(out)@),
        all_input(s@),
    ensures
        final(out)@ == old(out)@ + subpath_fill(s@),
        s@.len() >= 3 ==> final(out)@.len() == old(out)@.len() + s@.len() - 2,
        s@.len() < 3 ==> final(out)@.len() == old(out)@.len(),
        s@.len() >= 3 ==> total_doubled_area(subpath_fill(s@)) == shoelace(s@),
        all_local(final(out)@),
{
    let ghost start = out@;
    if s.len() >= 3 {
        proof {
            lemma_ear_clip_area(s@, orientation(s@));
        }
    }
    if s.len() < 3 {
        assert(out@ =~= start + subpath_fill(s@));
        return;
    }
    let ccw = orientation_exec(s);
    let mut q: Vec<Point> = Vec::new();
    let mut j: usize = 0;
    while j < s.len()
        invariant
            j <= s@.len(),
            q@ == s@.take(j as int),
        decreases s@.len() - j,
    {
        q.push(s[j]);
        j = j + 1;
        assert(q@ =~= s@.take(j as int));
    }
    assert(s@.take(j as int) =~= s@);
    while q.len() > 3
        invariant
            q@.len() >= 3,
            all_input(q@),
            all_local(out@),
            out@ + ear_clip(q@, ccw) == start + ear_clip(s@, ccw),
            out@.len() + q@.len() == start.len() + s@.len(),
        decreases q@.len(),
    {
        let i = clip_index_exec(&q, ccw);
        let m = q.len();
        let pi = if i == 0 { m - 1 } else { i - 1 };
        let ni = if i + 1 == m { 0 } else { i + 1 };
        let ghost before = q@;
        let ghost out_before = out@;
        let t = Triangle { a: q[pi], b: q[i], c: q[ni] };
        out.push(t);
        q.remove(i);
        assert(ear_clip(before, ccw) == seq![t] + ear_clip(q@, ccw));
        assert(out@ + ear_clip(q@, ccw) =~= out_before + ear_clip(before, ccw));
        assert forall|k: int| 0 <= k < q@.len() implies input_point(#[trigger] q@[k]) by {
            if k < i {
                assert(q@[k] == before[k]);
            } else {
                assert(q@[k] == before[k + 1]);
            }
        }
    }
    let ghost out_before = out@;
    out.push(Triangle { a: q[0], b: q[1], c: q[2] });
    assert(out@ =~= out_before + ear_clip(q@, ccw));
}

/// Cross product of the position vectors `a` and `b`.
pub open spec fn cr(a: Point, b: Point) -> int {
    a.x * b.y - b.x * a.y
}

/// Sum of `cr` over the edges between the first `k` points (open chain).
pub open spec fn chain(q: Seq<Point>, k: int) -> int
    decreases k,
{
    if k <= 1 {
        0
    } else {
        chain(q, k - 1) + cr(q[k - 2], q[k - 1])
    }
}

/// Twice the signed area of the closed polygon `q` (shoelace formula).
pub open spec fn shoelace(q: Seq<Point>) -> int {
    if q.len() == 0 {
        0
    } else {
        chain(q, q.len() as int) + cr(q.last(), q[0])
    }
}

proof fn lemma_doubled_area_cr(a: Point, b: Point, c: Point)
    ensures
        doubled_area(a, b, c) == cr(a, b) + cr(b, c) + cr(c, a),
        cr(a, c) == -cr(c, a),
{
    assert(doubled_area(a, b, c) == cr(a, b) + cr(b, c) + cr(c, a)) by (nonlinear_arith);
    assert(cr(a, c) == -cr(c, a)) by (nonlinear_arith);
}

proof fn lemma_chain_prefix(q1: Seq<Point>, q2: Seq<Point>, k: int)
    requires
        k <= q1.len(),
        k <= q2.len(),
        forall|j: int| 0 <= j < k ==> q1[j] == q2[j],
    ensures
        chain(q1, k) == chain(q2, k),
    decreases k,
{
    if k > 1 {
        lemma_chain_prefix(q1, q2, k - 1);
    }
}

/// Removing inner point `i` changes the chain by the two edges through it
/// against the edge that replaces them.
proof fn lemma_chain_remove(q: Seq<Point>, i: int, k: int)
    requires
        1 <= i,
        i + 1 <= k < q.len(),
    ensures
        chain(q, k + 1) - chain(q.remove(i), k) == cr(q[i - 1], q[i]) + cr(q[i], q[i + 1]) - cr(
            q[i - 1],
            q[i + 1],
        ),
    decreases k,
{
    let r = q.remove(i);
    assert forall|j: int| 0 <= j < i implies r[j] == q[j] by {}
    assert forall|j: int| i <= j < r.len() implies r[j] == q[j + 1] by {}
    assert(chain(q, k + 1) == chain(q, k) + cr(q[k - 1], q[k]));
    assert(chain(r, k) == chain(r, k - 1) + cr(r[k - 2], r[k - 1]));
    if k == i + 1 {
        lemma_chain_prefix(q, r, i);
        assert(chain(q, i + 1) == chain(q, i) + cr(q[i - 1], q[i]));
    } else {
        lemma_chain_remove(q, i, k - 1);
    }
}

proof fn lemma_chain_drop_first(q: Seq<Point>, k: int)
    requires
        2 <= k <= q.len(),
    ensures
        chain(q, k) == cr(q[0], q[1]) + chain(q.drop_first(), k - 1),
    decreases k,
{
    let d = q.drop_first();
    assert(chain(q, k) == chain(q, k - 1) + cr(q[k - 2], q[k - 1]));
    if k > 2 {
        lemma_chain_drop_first(q, k - 1);
        assert(chain(d, k - 1) == chain(d, k - 2) + cr(d[k - 3], d[k - 2]));
    } else {
        assert(chain(q, 1) == 0);
        assert(chain(d, 1) == 0);
    }
}

/// Clipping corner `i` takes the corner's triangle off the polygon's area.
pub proof fn lemma_shoelace_remove(q: Seq<Point>, i: int)
    requires
        q.len() >= 4,
        0 <= i < q.len(),
    ensures
        shoelace(q) == shoelace(q.remove(i)) + doubled_area(ear_triangle(q, i).a, ear_triangle(q, i).b, ear_triangle(q, i).c),
{
    let n = q.len() as int;
    let r = q.remove(i);
    let t = ear_triangle(q, i);
    lemma_doubled_area_cr(t.a, t.b, t.c);
    if i == 0 {
        assert(r =~= q.drop_first());
        lemma_chain_drop_first(q, n);
    } else if i == n - 1 {
        assert(r =~= q.drop_last());
        lemma_chain_prefix(q, r, n - 1);
    } else {
        lemma_chain_remove(q, i, n - 1);
        assert(r.last() == q.last());
    }
}

proof fn lemma_total_area_prepend(t: Triangle, s: Seq<Triangle>)
    ensures
        total_doubled_area(seq![t] + s) == doubled_area(t.a, t.b, t.c) + total_doubled_area(s),
    decreases s.len(),
{
    if s.len() > 0 {
        lemma_total_area_prepend(t, s.drop_last());
        assert((seq![t] + s).drop_last() =~= seq![t] + s.drop_last());
        assert((seq![t] + s).last() == s.last());
    } else {
        assert(seq![t] + s =~= seq![t]);
        assert(seq![t].drop_last() =~= Seq::<Triangle>::empty());
        assert(total_doubled_area(seq![t].drop_last()) == 0);
        assert(seq![t].last() == t);
        assert(total_doubled_area(s) == 0);
    }
}

/// The triangles of an ear clipping add up to the polygon's signed area:
/// their doubled areas sum to the shoelace formula's.
pub proof fn lemma_ear_clip_area(q: Seq<Point>, ccw: bool)
    requires
        q.len() >= 3,
    ensures
        total_doubled_area(ear_clip(q, ccw)) == shoelace(q),
        ear_clip(q, ccw).len() == q.len() - 2,
    decreases q.len(),
{
    if q.len() == 3 {
        let t = tri(q[0], q[1], q[2]);
        lemma_doubled_area_cr(q[0], q[1], q[2]);
        assert(seq![t].drop_last() =~= Seq::<Triangle>::empty());
        assert(total_doubled_area(seq![t].drop_last()) == 0);
        assert(seq![t].last() == t);
        assert(chain(q, 1) == 0);
        assert(chain(q, 2) == cr(q[0], q[1]));
        assert(chain(q, 3) == cr(q[0], q[1]) + cr(q[1], q[2]));
        assert(total_doubled_area(seq![t]) == doubled_area(q[0], q[1], q[2]));
    } else {
        let i = clip_index(q, ccw);
        lemma_ear_clip_area(q.remove(i), ccw);
        lemma_total_area_prepend(ear_triangle(q, i), ear_clip(q.remove(i), ccw));
        lemma_shoelace_remove(q, i);
    }
}

} // verus!
