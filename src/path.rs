use vstd::prelude::*;
use crate::geometry::{Point, pt};
use crate::tessellate::{Triangle, all_input_paths, all_local, path_fill, path_fill_triangles, path_stroke, path_stroke_triangles, views};

verus! {

pub open spec fn origin() -> Point {
    pt(0, 0)
}

/// The state `clear` leaves, whatever the state `v` before it.
pub open spec fn after_clear(v: (Seq<Seq<Point>>, Point)) -> (Seq<Seq<Point>>, Point) {
    (Seq::empty(), origin())
}

/// Clearing twice in a row leaves the same state as clearing once: no
/// subpaths, current point at the origin.
pub proof fn lemma_clear_idempotent(v: (Seq<Seq<Point>>, Point))
    ensures
        after_clear(after_clear(v)) == after_clear(v),
        after_clear(v).0.len() == 0,
        after_clear(v).1 == origin(),
{
}

/// The path under construction: a list of subpaths, each a non-empty list of
/// points, and the current point.
pub struct PathBuffer {
    subpaths: Vec<Vec<Point>>,
    cursor: Point,
}

impl PathBuffer {
    /// The subpaths, in order of creation.
    pub closed spec fn paths(&self) -> Seq<Seq<Point>> {
        views(self.subpaths@)
    }

    /// The subpaths and the current point.
    pub open spec fn view(&self) -> (Seq<Seq<Point>>, Point) {
        (self.paths(), self.head())
    }

    /// The current point.
    pub closed spec fn head(&self) -> Point {
        self.cursor
    }

    /// Every subpath holds at least one point, every point came from an `i32`
    /// pair, and the current point is the last point drawn (the origin when
    /// there is none).
    pub open spec fn wf(&self) -> bool {
        &&& forall|i: int| 0 <= i < self.paths().len() ==> #[trigger] self.paths()[i].len() > 0
        &&& all_input_paths(self.paths())
        &&& self.paths().len() == 0 ==> self.head() == origin()
        &&& self.paths().len() > 0 ==> self.head() == self.paths().last().last()
    }

    /// An empty path with the current point at the origin.
    pub fn new() -> (r: PathBuffer)
        ensures
            r.wf(),
            r.paths() == Seq::<Seq<Point>>::empty(),
            r.head() == origin(),
    {
        let r = PathBuffer { subpaths: Vec::new(), cursor: Point { x: 0, y: 0 } };
        assert(r.paths() =~= Seq::<Seq<Point>>::empty());
        r
    }

    /// Starts a new subpath at `(x, y)` without drawing a segment.
    pub fn move_to(&mut self, x: i32, y: i32)
        requires
            old(self).wf(),
        ensures
            final(self).wf(),
            final(self).paths() == old(self).paths().push(seq![pt(x as int, y as int)]),
            final(self).head() == pt(x as int, y as int),
    {
        let p = Point { x: x as i64, y: y as i64 };
        let ghost before = self.paths();
        let mut sub: Vec<Point> = Vec::new();
        sub.push(p);
        self.subpaths.push(sub);
        self.cursor = p;
        assert(sub@ =~= seq![p]);
        assert(self.paths() =~= before.push(seq![p]));
    }

    /// Appends `(x, y)` to the current subpath, which opens at the origin when
    /// there is none.
    pub fn line_to(&mut self, x: i32, y: i32)
        requires
            old(self).wf(),
        ensures
            final(self).wf(),
            final(self).head() == pt(x as int, y as int),
            old(self).paths().len() == 0 ==> final(self).paths() == seq![
                seq![origin(), pt(x as int, y as int)],
            ],
            old(self).paths().len() > 0 ==> final(self).paths() == old(self).paths().update(
                old(self).paths().len() - 1,
                old(self).paths().last().push(pt(x as int, y as int)),
            ),
    {
        let p = Point { x: x as i64, y: y as i64 };
        let ghost before = self.paths();
        let was_empty = self.subpaths.len() == 0;
        let mut last = match self.subpaths.pop() {
            Some(v) => v,
            None => {
                let mut v: Vec<Point> = Vec::new();
                v.push(Point { x: 0, y: 0 });
                v
            },
        };
        let ghost start = last@;
        last.push(p);
        let ghost grown = last@;
        self.subpaths.push(last);
        self.cursor = p;
        if was_empty {
            assert(start =~= seq![origin()]);
            assert(grown =~= seq![origin(), p]);
            assert(self.subpaths@.len() == 1);
            assert(self.paths() =~= seq![seq![origin(), p]]);
        } else {
            assert(start == before.last());
            assert(self.paths() =~= before.update(before.len() - 1, before.last().push(p)));
        }
    }

    /// Discards every subpath and puts the current point back at the origin.
    pub fn clear(&mut self)
        ensures
            final(self).wf(),
            final(self).view() == after_clear(old(self).view()),
            final(self).paths() == Seq::<Seq<Point>>::empty(),
            final(self).head() == origin(),
    {
        self.subpaths = Vec::new();
        self.cursor = Point { x: 0, y: 0 };
        assert(self.paths() =~= Seq::<Seq<Point>>::empty());
    }

    /// The fill triangles of the path, in local space.
    pub fn fill_triangles(&self) -> (r: Vec<Triangle>)
        requires
            self.wf(),
        ensures
            r@ == path_fill_triangles(self.paths()),
            all_local(r@),
    {
        path_fill(&self.subpaths)
    }

    /// The stroke triangles of the path for width `sw`, in local space.
    pub fn stroke_triangles(&self, sw: u16) -> (r: Vec<Triangle>)
        requires
            self.wf(),
        ensures
            r@ == path_stroke_triangles(self.paths(), sw as int),
            all_local(r@),
    {
        path_stroke(&self.subpaths, sw)
    }

    /// The current point.
    pub fn current_point(&self) -> (r: Point)
        ensures
            r == self.head(),
    {
        self.cursor
    }

    /// Number of subpaths.
    pub fn subpath_count(&self) -> (r: usize)
        ensures
            r == self.paths().len(),
    {
        self.subpaths.len()
    }

    /// A copy of the points of subpath `i`.
    pub fn subpath(&self, i: usize) -> (r: Vec<Point>)
        requires
            i < self.paths().len(),
        ensures
            r@ == self.paths()[i as int],
    {
        let mut out: Vec<Point> = Vec::new();
        let sub = &self.subpaths[i];
        let mut j: usize = 0;
        while j < sub.len()
            invariant
                j <= sub@.len(),
                out@ == sub@.take(j as int),
            decreases sub@.len() - j,
        {
            out.push(sub[j]);
            j = j + 1;
            assert(out@ =~= sub@.take(j as int));
        }
        assert(sub@.take(j as int) =~= sub@);
        out
    }
}

} // verus!
