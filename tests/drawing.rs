use canvas_rs::canvas::{CanvasProperties, Event, WinitCanvas};
use canvas_rs::context::{DrawContext, DrawError};
use canvas_rs::frame::{DrawRange, FrameBatch};
use canvas_rs::geometry::{Point, Transform, Vertex, FIXED_ONE};
use canvas_rs::path::PathBuffer;
use canvas_rs::style::{Color, FillParameters, StrokeParameters};
use canvas_rs::vertex_buffer::{BufferAction, VertexBufferManager, INITIAL_CAPACITY};

fn p(x: i64, y: i64) -> Point {
    Point { x, y }
}

fn positions(vs: &[Vertex]) -> Vec<(i64, i64)> {
    vs.iter().map(|v| (v.position.x, v.position.y)).collect()
}

fn doubled_area_sum(vs: &[Vertex]) -> i64 {
    vs.chunks(3)
        .map(|t| {
            let (a, b, c) = (t[0].position, t[1].position, t[2].position);
            (b.x - a.x) * (c.y - a.y) - (c.x - a.x) * (b.y - a.y)
        })
        .sum()
}

const RED: Color = Color { r: 255, g: 0, b: 0, a: 255 };

#[test]
fn canvas_properties_default_is_resizable_500() {
    let c = CanvasProperties::default();
    assert_eq!(c, CanvasProperties { resizable: true, width: 500, height: 500 });
}

#[test]
fn winit_canvas_new_and_set_properties() {
    let mut w = WinitCanvas::new().unwrap();
    assert_eq!(w.properties, CanvasProperties::default());
    let props = CanvasProperties { resizable: false, width: 1000, height: 1000 };
    w.set_properties(props);
    assert_eq!(w.properties, props);
    assert_eq!(Event::FrameUpdate, Event::FrameUpdate);
}

#[test]
fn default_transform_fixes_points() {
    let t = Transform::new();
    for q in [p(0, 0), p(3, -7), p(-100000, 2147483647)] {
        assert_eq!(t.apply(q), q);
    }
}

#[test]
fn transform_applies_matrix() {
    let one = FIXED_ONE;
    let t = Transform { m00: 2 * one, m01: one, m10: -one, m11: 3 * one };
    assert_eq!(t.apply(p(5, 7)), p(17, 16));
    // half scale: 2.5 and 3.5 round away from zero, as do -2.5 and -3.5
    let half = Transform { m00: one / 2, m01: 0, m10: 0, m11: one / 2 };
    assert_eq!(half.apply(p(5, 7)), p(3, 4));
    assert_eq!(half.apply(p(-5, -7)), p(-3, -4));
}

#[test]
fn transform_rotates_by_thirty_degrees() {
    // cos 30 = 0.8660254 -> 56756, sin 30 = 0.5 -> 32768
    let t = Transform { m00: 56756, m01: -32768, m10: 32768, m11: 56756 };
    assert_eq!(t.apply(p(100, 0)), p(87, 50));
    assert_eq!(t.apply(p(0, 100)), p(-50, 87));
}

#[test]
fn fill_rect_gives_two_triangles_of_area_w_h() {
    let ctx = DrawContext::new(500, 500);
    let vs = ctx.fill_rect(1, 2, 30, 40);
    assert_eq!(vs.len(), 6);
    assert_eq!(
        positions(&vs),
        vec![(1, 2), (31, 2), (31, 42), (1, 2), (31, 42), (1, 42)]
    );
    assert_eq!(doubled_area_sum(&vs), 2 * 30 * 40);
    assert!(vs.iter().all(|v| (v.r, v.g, v.b) == (0, 0, 0)));
}

#[test]
fn fill_rect_degenerate_has_zero_area() {
    let ctx = DrawContext::new(500, 500);
    let a = ctx.fill_rect(5, 5, 0, 20);
    let b = ctx.fill_rect(5, 5, 20, 0);
    assert_eq!(a.len(), 6);
    assert_eq!(b.len(), 6);
    assert_eq!(doubled_area_sum(&a), 0);
    assert_eq!(doubled_area_sum(&b), 0);
}

#[test]
fn stroke_rect_width_two_gives_four_bands() {
    let mut ctx = DrawContext::new(500, 500);
    ctx.set_stroke_width(2);
    let vs = ctx.stroke_rect(0, 0, 100, 50);
    assert_eq!(vs.len(), 24);
    assert_eq!(
        positions(&vs),
        vec![
            (0, 0), (100, 0), (100, 2), (0, 0), (100, 2), (0, 2),
            (0, 48), (100, 48), (100, 50), (0, 48), (100, 50), (0, 50),
            (0, 0), (2, 0), (2, 50), (0, 0), (2, 50), (0, 50),
            (98, 0), (100, 0), (100, 50), (98, 0), (100, 50), (98, 50),
        ]
    );
    // no triangle reaches the interior (2..98, 2..48)
    for t in vs.chunks(3) {
        let inside = t.iter().all(|v| {
            v.position.x > 2 && v.position.x < 98 && v.position.y > 2 && v.position.y < 48
        });
        assert!(!inside);
    }
}

#[test]
fn fill_poly_fans_one_triangle_per_side() {
    let ctx = DrawContext::new(500, 500);
    let ring = vec![p(10, 0), p(0, 10), p(-10, 0), p(0, -10)];
    let vs = ctx.fill_poly(0, 0, &ring).unwrap();
    assert_eq!(vs.len(), 12);
    assert_eq!(
        positions(&vs),
        vec![
            (0, 0), (10, 0), (0, 10),
            (0, 0), (0, 10), (-10, 0),
            (0, 0), (-10, 0), (0, -10),
            (0, 0), (0, -10), (10, 0),
        ]
    );
    assert_eq!(doubled_area_sum(&vs), 400);
}

#[test]
fn poly_with_fewer_than_three_sides_is_invalid() {
    let ctx = DrawContext::new(500, 500);
    let ring = vec![p(10, 0), p(-10, 0)];
    assert_eq!(ctx.fill_poly(0, 0, &ring), Err(DrawError::InvalidGeometry));
    assert_eq!(ctx.stroke_poly(&ring), Err(DrawError::InvalidGeometry));
    assert_eq!(ctx.fill_poly(0, 0, &Vec::new()), Err(DrawError::InvalidGeometry));
}

#[test]
fn stroke_poly_one_quad_per_edge() {
    let ctx = DrawContext::new(500, 500);
    let ring = vec![p(0, 0), p(10, 0), p(10, 10)];
    let vs = ctx.stroke_poly(&ring).unwrap();
    assert_eq!(vs.len(), 18);
    // the first edge is horizontal: band from y = 0 to y = 1 (width 1)
    assert_eq!(
        positions(&vs[0..6]),
        vec![(0, 0), (10, 0), (10, 1), (0, 0), (10, 1), (0, 1)]
    );
    // the second edge runs down: its band lies on the side of the normal (-1, 0)
    assert_eq!(
        positions(&vs[6..12]),
        vec![(10, 0), (10, 10), (9, 10), (10, 0), (9, 10), (9, 0)]
    );
    // the closing diagonal: length 14 (rounded down), offset (1, -1) after rounding
    assert_eq!(
        positions(&vs[12..18]),
        vec![(10, 10), (0, 0), (1, -1), (10, 10), (1, -1), (11, 9)]
    );
}

#[test]
fn stroke_poly_hexagon_has_six_quads() {
    let mut ctx = DrawContext::new(500, 500);
    ctx.set_stroke_color(RED);
    let ring = vec![p(20, 0), p(10, 17), p(-10, 17), p(-20, 0), p(-10, -17), p(10, -17)];
    let vs = ctx.stroke_poly(&ring).unwrap();
    assert_eq!(vs.len(), 6 * 6);
    assert!(vs.iter().all(|v| (v.r, v.g, v.b) == (255, 0, 0)));
}

#[test]
fn path_stroke_joins_consecutive_segments() {
    let mut ctx = DrawContext::new(500, 500);
    ctx.path_moveto(0, 0);
    ctx.path_lineto(10, 0);
    ctx.path_lineto(10, 10);
    let vs = ctx.path_stroke();
    assert_eq!(vs.len(), 18);
    assert_eq!(
        positions(&vs[6..12]),
        vec![(10, 0), (10, 1), (9, 0), (10, 0), (10, 0), (10, 0)]
    );
    assert_eq!(
        positions(&vs[12..18]),
        vec![(10, 0), (10, 10), (9, 10), (10, 0), (9, 10), (9, 0)]
    );
}

#[test]
fn triangle_path_fills_red() {
    let mut ctx = DrawContext::new(500, 500);
    ctx.set_fill_color(RED);
    ctx.path_moveto(0, 0);
    ctx.path_lineto(10, 0);
    ctx.path_lineto(10, 10);
    let vs = ctx.path_fill();
    assert_eq!(positions(&vs), vec![(0, 0), (10, 0), (10, 10)]);
    assert!(vs.iter().all(|v| (v.r, v.g, v.b) == (255, 0, 0)));
}

#[test]
fn path_fill_twice_gives_same_geometry() {
    let mut ctx = DrawContext::new(500, 500);
    ctx.path_moveto(0, 0);
    ctx.path_lineto(20, 0);
    ctx.path_lineto(20, 20);
    ctx.path_lineto(0, 20);
    let first = ctx.path_fill();
    let second = ctx.path_fill();
    assert_eq!(first, second);
    assert_eq!(first.len(), 6);
    assert_eq!(ctx.path.subpath_count(), 1);
    assert_eq!(ctx.path.subpath(0), vec![p(0, 0), p(20, 0), p(20, 20), p(0, 20)]);
}

#[test]
fn path_clearbuf_twice_is_once() {
    let mut ctx = DrawContext::new(500, 500);
    ctx.path_moveto(4, 5);
    ctx.path_lineto(6, 7);
    ctx.path_clearbuf();
    assert_eq!(ctx.path.subpath_count(), 0);
    assert_eq!(ctx.path.current_point(), p(0, 0));
    ctx.path_clearbuf();
    assert_eq!(ctx.path.subpath_count(), 0);
    assert_eq!(ctx.path.current_point(), p(0, 0));
    assert!(ctx.path_fill().is_empty());
}

#[test]
fn lineto_on_empty_path_starts_at_origin() {
    let mut path = PathBuffer::new();
    path.line_to(3, 4);
    assert_eq!(path.subpath_count(), 1);
    assert_eq!(path.subpath(0), vec![p(0, 0), p(3, 4)]);
    assert_eq!(path.current_point(), p(3, 4));
}

#[test]
fn moveto_starts_new_subpaths() {
    let mut ctx = DrawContext::new(500, 500);
    ctx.path_moveto(1, 1);
    ctx.path_lineto(2, 2);
    ctx.path_moveto(-5, 6);
    assert_eq!(ctx.path.subpath_count(), 2);
    assert_eq!(ctx.path.subpath(1), vec![p(-5, 6)]);
    assert_eq!(ctx.path.current_point(), p(-5, 6));
}

#[test]
fn path_stroke_quad_per_segment() {
    let mut ctx = DrawContext::new(500, 500);
    ctx.set_stroke_color(RED);
    ctx.path_moveto(0, 0);
    ctx.path_lineto(10, 0);
    let vs = ctx.path_stroke();
    assert_eq!(
        positions(&vs),
        vec![(0, 0), (10, 0), (10, 1), (0, 0), (10, 1), (0, 1)]
    );
    assert!(vs.iter().all(|v| (v.r, v.g, v.b) == (255, 0, 0)));
    ctx.set_stroke_width(4);
    let wide = ctx.path_stroke();
    assert_eq!(
        positions(&wide),
        vec![(0, -2), (10, -2), (10, 2), (0, -2), (10, 2), (0, 2)]
    );
}

#[test]
fn transform_handle_edits_in_place() {
    let mut ctx = DrawContext::new(500, 500);
    {
        let t = ctx.transform();
        t.m00 = 2 * FIXED_ONE;
        t.m11 = 3 * FIXED_ONE;
    }
    let vs = ctx.fill_rect(1, 1, 1, 1);
    assert_eq!(
        positions(&vs),
        vec![(2, 3), (4, 3), (4, 6), (2, 3), (4, 6), (2, 6)]
    );
}

#[test]
fn style_setters_and_resize() {
    let mut ctx = DrawContext::new(500, 500);
    let blue = Color { r: 0, g: 0, b: 255, a: 255 };
    ctx.set_stroke_params(StrokeParameters { width: 7, color: blue });
    assert_eq!(ctx.style.stroke_width, 7);
    assert_eq!(ctx.style.stroke_color, blue);
    ctx.set_fill_params(FillParameters { color: RED });
    assert_eq!(ctx.style.fill_color, RED);
    ctx.resize(800, 600);
    assert_eq!((ctx.width, ctx.height), (800, 600));
    assert_eq!(ctx.style.stroke_color, blue);
}

#[test]
fn vertex_buffer_grows_then_reuses() {
    let mut m = VertexBufferManager::new();
    assert_eq!(m.capacity(), INITIAL_CAPACITY);
    let v = |n: usize| vec![Vertex { position: p(0, 0), r: 0, g: 0, b: 0 }; n];
    assert_eq!(m.upload(&v(600)), BufferAction::Reallocate { capacity: 1024, count: 600 });
    assert_eq!(m.capacity(), 1024);
    assert_eq!(m.upload(&v(600)), BufferAction::Write { count: 600 });
    assert_eq!(m.upload(&v(10)), BufferAction::Write { count: 10 });
    assert_eq!(m.upload(&v(5000)), BufferAction::Reallocate { capacity: 5000, count: 5000 });
    assert_eq!(m.capacity(), 5000);
    assert_eq!(m.upload(&v(5000)), BufferAction::Write { count: 5000 });
}

#[test]
fn frame_batch_records_repeated_stamps() {
    let mut ctx = DrawContext::new(500, 500);
    ctx.path_moveto(0, 0);
    ctx.path_lineto(10, 0);
    ctx.path_lineto(10, 10);
    let mut batch = FrameBatch::new();
    batch.draw(ctx.fill_rect(0, 0, 5, 5));
    batch.draw(ctx.path_fill());
    batch.draw(ctx.path_fill());
    batch.draw(Vec::new());
    assert_eq!(
        batch.draws().clone(),
        vec![
            DrawRange { start: 0, end: 6 },
            DrawRange { start: 6, end: 9 },
            DrawRange { start: 9, end: 12 },
            DrawRange { start: 12, end: 12 },
        ]
    );
    assert!(batch.accepts_draws());
    batch.close();
    assert!(!batch.accepts_draws());
    let v = batch.vertices();
    assert_eq!(v.len(), 12);
    assert_eq!(v[6..9], v[9..12]);
    assert_eq!(positions(&v[6..9]), vec![(0, 0), (10, 0), (10, 10)]);
}

#[test]
fn fill_of_point_only_path_still_issues_a_draw() {
    let mut ctx = DrawContext::new(500, 500);
    ctx.path_moveto(0, 0);
    let mut batch = FrameBatch::new();
    let vs = ctx.path_fill();
    assert!(vs.is_empty());
    batch.draw(vs);
    batch.draw(ctx.path_stroke());
    assert_eq!(
        batch.draws().clone(),
        vec![DrawRange { start: 0, end: 0 }, DrawRange { start: 0, end: 0 }]
    );
    assert!(batch.vertices().is_empty());
}

#[test]
fn concave_path_fill_stays_inside_outline() {
    let mut ctx = DrawContext::new(500, 500);
    ctx.path_moveto(0, 0);
    ctx.path_lineto(4, 0);
    ctx.path_lineto(4, 4);
    ctx.path_lineto(2, 1);
    ctx.path_lineto(0, 4);
    let vs = ctx.path_fill();
    assert_eq!(vs.len(), 9);
    // the triangles' doubled areas add up to the shoelace doubled area, 20
    let areas: Vec<i64> = vs
        .chunks(3)
        .map(|t| {
            let (a, b, c) = (t[0].position, t[1].position, t[2].position);
            (b.x - a.x) * (c.y - a.y) - (c.x - a.x) * (b.y - a.y)
        })
        .collect();
    assert!(areas.iter().all(|&a| a > 0));
    assert_eq!(areas.iter().sum::<i64>(), 20);
    // no triangle has the notch corner's opposite triangle (0,0),(4,0),(4,4)
    assert!(!vs.chunks(3).any(|t| positions(t) == vec![(0, 0), (4, 0), (4, 4)]));
}

#[test]
fn clockwise_concave_path_fill() {
    let mut ctx = DrawContext::new(500, 500);
    ctx.path_moveto(0, 4);
    ctx.path_lineto(2, 1);
    ctx.path_lineto(4, 4);
    ctx.path_lineto(4, 0);
    ctx.path_lineto(0, 0);
    let vs = ctx.path_fill();
    assert_eq!(vs.len(), 9);
    assert_eq!(doubled_area_sum(&vs), -20);
}

#[test]
fn stroke_rect_degenerate_is_empty() {
    let ctx = DrawContext::new(500, 500);
    assert!(ctx.stroke_rect(5, 5, 0, 30).is_empty());
    assert!(ctx.stroke_rect(5, 5, 30, 0).is_empty());
}
