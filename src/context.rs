use vstd::prelude::*;
use crate::geometry::{Point, Transform, Vertex, pt};
use crate::path::{PathBuffer, after_clear, origin};
use crate::style::{Color, FillParameters, StrokeParameters, StyleState};
use crate::tessellate::{
    all_input, box_fill, box_stroke, fan, path_fill_triangles, path_stroke_triangles,
    rect_fill_triangles, rect_stroke_triangles, fan_triangles, ring_stroke, ring_stroke_triangles,
    shade, shade_spec,
};

verus! {

/// Errors of drawing calls.
#[derive(Clone, Copy, Debug, PartialEq, Eq, Structural)]
pub enum DrawError {
    /// A shape that cannot be tessellated, such as a polygon of fewer than
    /// three sides.
    InvalidGeometry,
    /// The device failed to allocate or fill a buffer.
    DeviceError,
}

/// The drawing state of one frame: transform, path under construction, style
/// and viewport size. Every fill or stroke call returns the vertex list to
/// draw, three vertices per triangle, already transformed and colored.
pub struct DrawContext {
    pub transform: Transform,
    pub path: PathBuffer,
    pub style: StyleState,
    pub width: u32,
    pub height: u32,
}

impl DrawContext {
    pub open spec fn wf(&self) -> bool {
        self.path.wf()
    }

    /// Vertices of the current path's fill.
    pub open spec fn path_fill_spec(&self) -> Seq<Vertex> {
        shade_spec(path_fill_triangles(self.path.paths()), self.style.fill_color, self.transform)
    }

    /// Vertices of the current path's stroke.
    pub open spec fn path_stroke_spec(&self) -> Seq<Vertex> {
        shade_spec(
            path_stroke_triangles(self.path.paths(), self.style.stroke_width as int),
            self.style.stroke_color,
            self.transform,
        )
    }

    /// Identity transform, empty path, default style, viewport `w` by `h`.
    pub fn new(w: u32, h: u32) -> (r: DrawContext)
        ensures
            r.wf(),
            r.transform == Transform::identity(),
            r.path.paths() == Seq::<Seq<Point>>::empty(),
            r.path.head() == origin(),
            r.style == StyleState::initial(),
            r.width == w,
            r.height == h,
    {
        DrawContext {
            transform: Transform::new(),
            path: PathBuffer::new(),
            style: StyleState::new(),
            width: w,
            height: h,
        }
    }

    /// Moves the current point to `(x, y)`, starting a new subpath.
    pub fn path_moveto(&mut self, x: i32, y: i32)
        requires
            old(self).wf(),
        ensures
            final(self).wf(),
            final(self).path.paths() == old(self).path.paths().push(seq![pt(x as int, y as int)]),
            final(self).path.head() == pt(x as int, y as int),
            final(self).transform == old(self).transform,
            final(self).style == old(self).style,
            final(self).width == old(self).width,
            final(self).height == old(self).height,
    {
        self.path.move_to(x, y);
    }

    /// Draws a line from the current point to `(x, y)`.
    pub fn path_lineto(&mut self, x: i32, y: i32)
        requires
            old(self).wf(),
        ensures
            final(self).wf(),
            final(self).path.head() == pt(x as int, y as int),
            old(self).path.paths().len() == 0 ==> final(self).path.paths() == seq![
                seq![origin(), pt(x as int, y as int)],
            ],
            old(self).path.paths().len() > 0 ==> final(self).path.paths()
                == old(self).path.paths().update(
                old(self).path.paths().len() - 1,
                old(self).path.paths().last().push(pt(x as int, y as int)),
            ),
            final(self).transform == old(self).transform,
            final(self).style == old(self).style,
            final(self).width == old(self).width,
            final(self).height == old(self).height,
    {
        self.path.line_to(x, y);
    }

    /// Fills the current path: each subpath, closed implicitly, is cut into
    /// triangles by ear clipping (`path_fill_triangles`). The path is kept, so
    /// it can be drawn again.
    pub fn path_fill(&self) -> (r: Vec<Vertex>)
        requires
            self.wf(),
        ensures
            r@ == self.path_fill_spec(),
    {
        let tris = self.path.fill_triangles();
        shade(&tris, self.style.fill_color, &self.transform)
    }

    /// Strokes the current path; the path is kept, so it can be drawn again.
    pub fn path_stroke(&self) -> (r: Vec<Vertex>)
        requires
            self.wf(),
        ensures
            r@ == self.path_stroke_spec(),
    {
        let tris = self.path.stroke_triangles(self.style.stroke_width);
        shade(&tris, self.style.stroke_color, &self.transform)
    }

    /// Empties the path and puts the current point back at the origin.
    pub fn path_clearbuf(&mut self)
        ensures
            final(self).wf(),
            final(self).path.view() == after_clear(old(self).path.view()),
            final(self).path.paths() == Seq::<Seq<Point>>::empty(),
            final(self).path.head() == origin(),
            final(self).transform == old(self).transform,
            final(self).style == old(self).style,
            final(self).width == old(self).width,
            final(self).height == old(self).height,
    {
        self.path.clear();
    }

    /// Fills the box at `(x, y)` of size `w` by `h`: two triangles.
    pub fn fill_rect(&self, x: i32, y: i32, w: i32, h: i32) -> (r: Vec<Vertex>)
        ensures
            r@ == shade_spec(
                box_fill(x as int, y as int, w as int, h as int),
                self.style.fill_color,
                self.transform,
            ),
            r@.len() == 6,
    {
        let tris = rect_fill_triangles(x, y, w, h);
        shade(&tris, self.style.fill_color, &self.transform)
    }

    /// Strokes the border of the box: four bands of the stroke width laid
    /// inside its edges, eight triangles; nothing for a box of zero width or
    /// height.
    pub fn stroke_rect(&self, x: i32, y: i32, w: i32, h: i32) -> (r: Vec<Vertex>)
        ensures
            r@ == shade_spec(
                box_stroke(x as int, y as int, w as int, h as int, self.style.stroke_width as int),
                self.style.stroke_color,
                self.transform,
            ),
            w != 0 && h != 0 ==> r@.len() == 24,
            w == 0 || h == 0 ==> r@.len() == 0,
    {
        let tris = rect_stroke_triangles(x, y, w, h, self.style.stroke_width);
        shade(&tris, self.style.stroke_color, &self.transform)
    }

    /// Fills the polygon with center `(x, y)` and corners `ring`: one fan
    /// triangle per corner. Fewer than three corners is `InvalidGeometry`.
    pub fn fill_poly(&self, x: i32, y: i32, ring: &Vec<Point>) -> (r: Result<Vec<Vertex>, DrawError>)
        requires
            all_input(ring@),
        ensures
            ring@.len() < 3 <==> r is Err,
            r is Err ==> r == Err::<Vec<Vertex>, DrawError>(DrawError::InvalidGeometry),
            r is Ok ==> r->Ok_0@ == shade_spec(
                fan(pt(x as int, y as int), ring@, ring@.len()),
                self.style.fill_color,
                self.transform,
            ),
            r is Ok ==> r->Ok_0@.len() == 3 * ring@.len(),
    {
        if ring.len() < 3 {
            return Err(DrawError::InvalidGeometry);
        }
        let tris = fan_triangles(Point { x: x as i64, y: y as i64 }, ring);
        Ok(shade(&tris, self.style.fill_color, &self.transform))
    }

    /// Strokes the closed outline through `ring`: one quad per edge. Fewer
    /// than three corners is `InvalidGeometry`.
    pub fn stroke_poly(&self, ring: &Vec<Point>) -> (r: Result<Vec<Vertex>, DrawError>)
        requires
            all_input(ring@),
        ensures
            ring@.len() < 3 <==> r is Err,
            r is Err ==> r == Err::<Vec<Vertex>, DrawError>(DrawError::InvalidGeometry),
            r is Ok ==> r->Ok_0@ == shade_spec(
                ring_stroke(ring@, self.style.stroke_width as int, ring@.len()),
                self.style.stroke_color,
                self.transform,
            ),
            r is Ok ==> r->Ok_0@.len() == 6 * ring@.len(),
    {
        if ring.len() < 3 {
            return Err(DrawError::InvalidGeometry);
        }
        let tris = ring_stroke_triangles(ring, self.style.stroke_width);
        Ok(shade(&tris, self.style.stroke_color, &self.transform))
    }

    /// Sets stroke width and color together.
    pub fn set_stroke_params(&mut self, params: StrokeParameters)
        ensures
            final(self).style == (StyleState {
                stroke_color: params.color,
                stroke_width: params.width,
                ..old(self).style
            }),
            final(self).transform == old(self).transform,
            final(self).path == old(self).path,
            final(self).width == old(self).width,
            final(self).height == old(self).height,
    {
        self.style.stroke_color = params.color;
        self.style.stroke_width = params.width;
    }

    /// Sets the fill color.
    pub fn set_fill_params(&mut self, params: FillParameters)
        ensures
            final(self).style == (StyleState { fill_color: params.color, ..old(self).style }),
            final(self).transform == old(self).transform,
            final(self).path == old(self).path,
            final(self).width == old(self).width,
            final(self).height == old(self).height,
    {
        self.style.fill_color = params.color;
    }

    /// Sets the stroke color.
    pub fn set_stroke_color(&mut self, color: Color)
        ensures
            final(self).style == (StyleState { stroke_color: color, ..old(self).style }),
            final(self).transform == old(self).transform,
            final(self).path == old(self).path,
            final(self).width == old(self).width,
            final(self).height == old(self).height,
    {
        self.style.stroke_color = color;
    }

    /// Sets the stroke width.
    pub fn set_stroke_width(&mut self, width: u16)
        ensures
            final(self).style == (StyleState { stroke_width: width, ..old(self).style }),
            final(self).transform == old(self).transform,
            final(self).path == old(self).path,
            final(self).width == old(self).width,
            final(self).height == old(self).height,
    {
        self.style.stroke_width = width;
    }

    /// Sets the fill color.
    pub fn set_fill_color(&mut self, color: Color)
        ensures
            final(self).style == (StyleState { fill_color: color, ..old(self).style }),
            final(self).transform == old(self).transform,
            final(self).path == old(self).path,
            final(self).width == old(self).width,
            final(self).height == old(self).height,
    {
        self.style.fill_color = color;
    }

    /// The transform, to be edited in place.
    pub fn transform(&mut self) -> (r: &mut Transform)
        ensures
            *r == old(self).transform,
            final(self).transform == *final(r),
            final(self).path == old(self).path,
            final(self).style == old(self).style,
            final(self).width == old(self).width,
            final(self).height == old(self).height,
    {
        &mut self.transform
    }

    /// Records a new viewport size.
    pub fn resize(&mut self, w: u32, h: u32)
        ensures
            final(self).width == w,
            final(self).height == h,
            final(self).transform == old(self).transform,
            final(self).path == old(self).path,
            final(self).style == old(self).style,
    {
        self.width = w;
        self.height = h;
    }
}

} // verus!
