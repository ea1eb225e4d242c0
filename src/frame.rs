use vstd::prelude::*;
use crate::geometry::Vertex;

verus! {

/// A draw call over the frame's vertex list: vertices `start` up to `end`.
#[derive(Clone, Copy, Debug, PartialEq, Eq, Structural)]
pub struct DrawRange {
    pub start: usize,
    pub end: usize,
}

/// The vertices a draw call covers.
pub open spec fn range_vertices(vertices: Seq<Vertex>, r: DrawRange) -> Seq<Vertex> {
    vertices.subrange(r.start as int, r.end as int)
}

/// A frame's draw calls in issue order and the vertex list they index.
pub type BatchView = (Seq<Vertex>, Seq<DrawRange>);

/// The batch after a draw call of `vs`: the vertices are appended and one
/// range over them is recorded, an empty one when `vs` is empty.
pub open spec fn after_draw(b: BatchView, vs: Seq<Vertex>) -> BatchView {
    let vertices = b.0 + vs;
    (vertices, b.1.push(DrawRange { start: b.0.len() as usize, end: vertices.len() as usize }))
}

/// The draw calls of one frame. Every fill or stroke is one draw call,
/// recorded when it is made, in issue order, with its own range over the
/// frame's vertex list (an empty range for a call that produces no
/// triangles). The render pass receives the ranges after the frame's drawing
/// code has run, not one by one: every write into a device buffer during a
/// frame lands before the queue executes the pass, so calls drawn one by one
/// from a single buffer would all see its last contents. Giving each call its
/// own slice of one buffer that is filled once draws the same image, in the
/// same order, as drawing each call as it comes.
///
/// The frame is open until `close`; drawing into a closed frame is ruled out
/// by the contracts.
pub struct FrameBatch {
    vertices: Vec<Vertex>,
    draws: Vec<DrawRange>,
    open: bool,
}

impl FrameBatch {
    pub closed spec fn view(&self) -> BatchView {
        (self.vertices@, self.draws@)
    }

    pub closed spec fn is_open(&self) -> bool {
        self.open
    }

    /// The ranges tile the vertex list in order: the first starts at 0, each
    /// starts where the previous one ended, the last ends at the end of the
    /// list. A range may be empty.
    pub open spec fn wf(&self) -> bool {
        let (vertices, draws) = self.view();
        &&& forall|i: int|
            0 <= i < draws.len() ==> #[trigger] draws[i].start <= draws[i].end <= vertices.len()
        &&& forall|i: int| 0 < i < draws.len() ==> #[trigger] draws[i].start == draws[i - 1].end
        &&& draws.len() > 0 ==> draws[0].start == 0 && draws.last().end == vertices.len()
        &&& draws.len() == 0 ==> vertices.len() == 0
    }

    /// An open frame with no draw calls yet.
    pub fn new() -> (r: FrameBatch)
        ensures
            r.wf(),
            r.is_open(),
            r.view().0 == Seq::<Vertex>::empty(),
            r.view().1 == Seq::<DrawRange>::empty(),
    {
        FrameBatch { vertices: Vec::new(), draws: Vec::new(), open: true }
    }

    /// Records a draw call of `vs`.
    pub fn draw(&mut self, vs: Vec<Vertex>)
        requires
            old(self).wf(),
            old(self).is_open(),
            old(self).view().0.len() + vs@.len() <= usize::MAX,
        ensures
            final(self).wf(),
            final(self).is_open(),
            final(self).view() == after_draw(old(self).view(), vs@),
    {
        let ghost before = self.view();
        let ghost added = vs@;
        let start = self.vertices.len();
        let mut vs = vs;
        self.vertices.append(&mut vs);
        let end = self.vertices.len();
        self.draws.push(DrawRange { start, end });
        assert(self.view() =~= after_draw(before, added));
    }

    /// Ends the frame: no more draw calls; what was recorded stays.
    pub fn close(&mut self)
        ensures
            !final(self).is_open(),
            final(self).view() == old(self).view(),
    {
        self.open = false;
    }

    /// Whether the frame still takes draw calls.
    pub fn accepts_draws(&self) -> (r: bool)
        ensures
            r == self.is_open(),
    {
        self.open
    }

    /// The vertex list of the frame.
    pub fn vertices(&self) -> (r: &Vec<Vertex>)
        ensures
            r@ == self.view().0,
    {
        &self.vertices
    }

    /// The draw calls of the frame, in issue order.
    pub fn draws(&self) -> (r: &Vec<DrawRange>)
        ensures
            r@ == self.view().1,
    {
        &self.draws
    }
}

/// Issuing the same vertices twice records two draw calls whose ranges hold
/// the same vertices, and leaves the earlier calls as they were.
pub proof fn lemma_repeated_draw(b: BatchView, vs: Seq<Vertex>)
    requires
        b.0.len() + 2 * vs.len() <= usize::MAX,
    ensures
        after_draw(after_draw(b, vs), vs).1.len() == b.1.len() + 2,
        after_draw(after_draw(b, vs), vs).1.subrange(0, b.1.len() as int) == b.1,
        range_vertices(
            after_draw(after_draw(b, vs), vs).0,
            after_draw(after_draw(b, vs), vs).1[b.1.len() as int],
        ) == vs,
        range_vertices(
            after_draw(after_draw(b, vs), vs).0,
            after_draw(after_draw(b, vs), vs).1[b.1.len() + 1int],
        ) == vs,
{
    let b1 = after_draw(b, vs);
    let b2 = after_draw(b1, vs);
    assert(b2.1.subrange(0, b.1.len() as int) =~= b.1);
    assert(b2.0 == b.0 + vs + vs);
    assert(range_vertices(b2.0, b2.1[b.1.len() as int]) =~= vs);
    assert(range_vertices(b2.0, b2.1[b.1.len() + 1int]) =~= vs);
}

} // verus!
