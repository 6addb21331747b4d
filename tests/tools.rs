use flint::geometry::{Point, SUBPIXELS};
use flint::tools::{AnnotationTools, DrawOp, DrawingStroke, Rgba, ToolType, HIGHLIGHTER_ALPHA};

/// Whole pixels in the library's 1/256-pixel units.
fn u(px: i64) -> i64 {
    px * SUBPIXELS as i64
}

fn red() -> Rgba {
    Rgba::new(255, 0, 0, 255)
}

#[test]
fn test_point_distance() {
    let p1 = Point::new(0, 0);
    let p2 = Point::new(3, 4);
    assert_eq!(p1.distance_to(&p2), 5 * SUBPIXELS as u64);
}

#[test]
fn point_distance_rounds_down() {
    let p1 = Point::new(0, 0);
    let p2 = Point::new(1, 1);
    // sqrt(2) pixels is 362.03 units
    assert_eq!(p1.distance_to(&p2), 362);
    let far = Point::from_units(i32::MIN, i32::MIN);
    let near = Point::from_units(i32::MAX, i32::MAX);
    // sqrt(2) * (2^32 - 1), rounded down
    assert_eq!(far.distance_to(&near), 6074000998);
}

#[test]
fn test_stroke_creation() {
    let mut stroke = DrawingStroke::new(ToolType::Pencil, Rgba::new(255, 0, 0, 255), 3);

    stroke.add_point(Point::new(10, 10));
    stroke.add_point(Point::new(20, 20));
    stroke.finish();

    assert_eq!(stroke.points.len(), 2);
    assert!(stroke.finished);
}

#[test]
fn finished_stroke_keeps_its_points() {
    let mut stroke = DrawingStroke::new(ToolType::Line, red(), 2);
    stroke.add_point(Point::new(1, 2));
    stroke.finish();
    stroke.add_point(Point::new(3, 4));
    assert_eq!(stroke.points, vec![Point::new(1, 2)]);
}

#[test]
fn test_annotation_tools() {
    let mut tools = AnnotationTools::new();

    tools.set_tool(ToolType::Highlighter);
    assert_eq!(tools.current_tool, ToolType::Highlighter);
    assert_eq!(tools.current_thickness, 8);

    tools.start_stroke(Point::new(0, 0));
    tools.add_point_to_stroke(Point::new(10, 10));
    tools.finish_stroke();

    assert_eq!(tools.strokes.len(), 1);
    assert!(tools.current_stroke.is_none());
}

#[test]
fn new_tools_start_with_red_pencil() {
    let tools = AnnotationTools::new();
    assert_eq!(tools.current_tool, ToolType::Pencil);
    assert_eq!(tools.current_color, red());
    assert_eq!(tools.current_thickness, 3);
    assert!(tools.strokes.is_empty());
    assert!(tools.current_stroke.is_none());
}

#[test]
fn tool_switch_resets_thickness() {
    let mut tools = AnnotationTools::new();
    tools.set_thickness(12);
    tools.set_tool(ToolType::Highlighter);
    assert_eq!(tools.current_thickness, 8);
    tools.set_thickness(1);
    tools.set_tool(ToolType::Line);
    assert_eq!(tools.current_thickness, 2);
    tools.set_tool(ToolType::Arrow);
    assert_eq!(tools.current_thickness, 2);
    tools.set_tool(ToolType::Pencil);
    assert_eq!(tools.current_thickness, 3);
}

#[test]
fn tool_switch_mid_stroke_keeps_the_stroke() {
    let mut tools = AnnotationTools::new();
    tools.start_stroke(Point::new(1, 1));
    tools.set_tool(ToolType::Arrow);
    tools.set_color(Rgba::new(0, 0, 255, 255));
    tools.add_point_to_stroke(Point::new(2, 2));
    tools.finish_stroke();
    assert_eq!(tools.strokes[0].tool_type, ToolType::Pencil);
    assert_eq!(tools.strokes[0].color, red());
    assert_eq!(tools.strokes[0].thickness, 3);
}

#[test]
fn finish_adds_exactly_one_stroke() {
    let mut tools = AnnotationTools::new();
    tools.start_stroke(Point::new(5, 5));
    tools.add_point_to_stroke(Point::new(6, 7));
    tools.finish_stroke();
    assert_eq!(tools.strokes.len(), 1);
    assert!(tools.current_stroke.is_none());
    assert!(tools.strokes[0].finished);
    assert_eq!(tools.strokes[0].points, vec![Point::new(5, 5), Point::new(6, 7)]);
}

#[test]
fn cancel_leaves_strokes_unchanged() {
    let mut tools = AnnotationTools::new();
    tools.start_stroke(Point::new(5, 5));
    tools.finish_stroke();
    tools.start_stroke(Point::new(1, 1));
    tools.cancel_stroke();
    assert_eq!(tools.strokes.len(), 1);
    assert!(tools.current_stroke.is_none());
}

#[test]
fn start_while_drawing_is_ignored() {
    let mut tools = AnnotationTools::new();
    tools.start_stroke(Point::new(1, 1));
    tools.start_stroke(Point::new(9, 9));
    let current = tools.current_stroke.as_ref().unwrap();
    assert_eq!(current.points, vec![Point::new(1, 1)]);
    assert!(tools.strokes.is_empty());
}

#[test]
fn idle_operations_do_nothing() {
    let mut tools = AnnotationTools::new();
    tools.add_point_to_stroke(Point::new(1, 1));
    tools.finish_stroke();
    tools.cancel_stroke();
    assert!(tools.strokes.is_empty());
    assert!(tools.current_stroke.is_none());
}

#[test]
fn clear_all_reports_count() {
    let mut tools = AnnotationTools::new();
    assert_eq!(tools.clear_all(), 0);
    for i in 0..3 {
        tools.start_stroke(Point::new(i, i));
        tools.finish_stroke();
    }
    tools.start_stroke(Point::new(7, 7));
    assert_eq!(tools.clear_all(), 3);
    assert!(tools.strokes.is_empty());
    assert!(tools.current_stroke.is_none());
}

#[test]
fn pencil_renders_polyline() {
    let mut s = DrawingStroke::new(ToolType::Pencil, red(), 3);
    s.add_point(Point::new(1, 2));
    s.add_point(Point::new(3, 4));
    s.add_point(Point::new(5, 6));
    let mut ops = Vec::new();
    s.draw(&mut ops);
    assert_eq!(
        ops,
        vec![
            DrawOp::Save,
            DrawOp::SetColor(red()),
            DrawOp::SetLineWidth(3),
            DrawOp::RoundCap,
            DrawOp::RoundJoin,
            DrawOp::MoveTo(u(1), u(2)),
            DrawOp::LineTo(u(3), u(4)),
            DrawOp::LineTo(u(5), u(6)),
            DrawOp::Stroke,
            DrawOp::Restore,
        ]
    );
}

#[test]
fn single_point_pencil_is_degenerate_path() {
    let mut s = DrawingStroke::new(ToolType::Pencil, red(), 3);
    s.add_point(Point::new(4, 4));
    let mut ops = Vec::new();
    s.draw(&mut ops);
    assert_eq!(ops[5], DrawOp::MoveTo(u(4), u(4)));
    assert_eq!(ops[6], DrawOp::Stroke);
    assert_eq!(ops.len(), 8);
}

#[test]
fn empty_stroke_renders_nothing() {
    let s = DrawingStroke::new(ToolType::Arrow, red(), 3);
    let mut ops = vec![DrawOp::Stroke];
    s.draw(&mut ops);
    assert_eq!(ops, vec![DrawOp::Stroke]);
}

#[test]
fn line_uses_first_and_last_points() {
    let mut s = DrawingStroke::new(ToolType::Line, red(), 2);
    s.add_point(Point::new(0, 0));
    s.add_point(Point::new(50, 50));
    s.add_point(Point::new(10, 20));
    let mut ops = Vec::new();
    s.draw(&mut ops);
    assert_eq!(
        ops,
        vec![
            DrawOp::Save,
            DrawOp::SetColor(red()),
            DrawOp::SetLineWidth(2),
            DrawOp::RoundCap,
            DrawOp::MoveTo(u(0), u(0)),
            DrawOp::LineTo(u(10), u(20)),
            DrawOp::Stroke,
            DrawOp::Restore,
        ]
    );
}

#[test]
fn one_point_line_only_saves_and_restores() {
    let mut s = DrawingStroke::new(ToolType::Line, red(), 2);
    s.add_point(Point::new(0, 0));
    let mut ops = Vec::new();
    s.draw(&mut ops);
    assert_eq!(ops, vec![DrawOp::Save, DrawOp::SetColor(red()), DrawOp::Restore]);
}

#[test]
fn arrow_has_two_wings() {
    let mut s = DrawingStroke::new(ToolType::Arrow, red(), 2);
    s.add_point(Point::new(0, 0));
    s.add_point(Point::new(100, 0));
    let mut ops = Vec::new();
    s.draw(&mut ops);
    assert_eq!(
        ops,
        vec![
            DrawOp::Save,
            DrawOp::SetColor(red()),
            DrawOp::SetLineWidth(2),
            DrawOp::RoundCap,
            DrawOp::MoveTo(u(0), u(0)),
            DrawOp::LineTo(u(100), u(0)),
            DrawOp::Stroke,
            DrawOp::MoveTo(u(100), u(0)),
            // 100 - 6 cos 30 = 94.804 pixels, 6 sin 30 = 3 pixels
            DrawOp::LineTo(24270, -768),
            DrawOp::MoveTo(u(100), u(0)),
            DrawOp::LineTo(24270, 768),
            DrawOp::Stroke,
            DrawOp::Restore,
        ]
    );
}

#[test]
fn vertical_arrow_wings() {
    let mut s = DrawingStroke::new(ToolType::Arrow, red(), 10);
    s.add_point(Point::new(0, 0));
    s.add_point(Point::new(0, 200));
    let mut ops = Vec::new();
    s.draw(&mut ops);
    // length 30 at 30 degrees either side of straight up: (+-15, 200 - 25.98)
    assert_eq!(ops[8], DrawOp::LineTo(u(15), 44550));
    assert_eq!(ops[10], DrawOp::LineTo(u(-15), 44550));
}

#[test]
fn arrow_without_direction_has_no_head() {
    let mut s = DrawingStroke::new(ToolType::Arrow, red(), 2);
    s.add_point(Point::new(7, 7));
    s.add_point(Point::new(9, 9));
    s.add_point(Point::new(7, 7));
    let mut ops = Vec::new();
    s.draw(&mut ops);
    assert_eq!(
        ops,
        vec![
            DrawOp::Save,
            DrawOp::SetColor(red()),
            DrawOp::SetLineWidth(2),
            DrawOp::RoundCap,
            DrawOp::MoveTo(u(7), u(7)),
            DrawOp::LineTo(u(7), u(7)),
            DrawOp::Stroke,
            DrawOp::Restore,
        ]
    );
}

#[test]
fn highlighter_is_translucent() {
    let mut s = DrawingStroke::new(ToolType::Highlighter, Rgba::new(255, 255, 0, 255), 8);
    s.add_point(Point::new(0, 0));
    s.add_point(Point::new(10, 0));
    let mut ops = Vec::new();
    s.draw(&mut ops);
    assert_eq!(ops[1], DrawOp::SetColor(Rgba::new(255, 255, 0, HIGHLIGHTER_ALPHA)));
    assert_eq!(HIGHLIGHTER_ALPHA, 77);
    assert_eq!(ops[2], DrawOp::SetLineWidth(8));
    assert_eq!(ops[4], DrawOp::RoundJoin);
}

#[test]
fn draw_all_in_order_then_current() {
    let mut tools = AnnotationTools::new();
    tools.set_tool(ToolType::Line);
    tools.start_stroke(Point::new(0, 0));
    tools.add_point_to_stroke(Point::new(1, 0));
    tools.finish_stroke();
    tools.set_tool(ToolType::Pencil);
    tools.start_stroke(Point::new(5, 5));
    let ops = tools.draw_all();
    assert_eq!(ops.len(), 8 + 8);
    assert_eq!(ops[4], DrawOp::MoveTo(u(0), u(0)));
    assert_eq!(ops[13], DrawOp::MoveTo(u(5), u(5)));
}

#[test]
fn end_to_end_red_line() {
    let mut tools = AnnotationTools::new();
    tools.set_tool(ToolType::Line);
    tools.set_color(red());
    tools.set_thickness(2);
    tools.start_stroke(Point::new(10, 10));
    tools.add_point_to_stroke(Point::new(90, 10));
    tools.finish_stroke();
    let ops = tools.draw_all();
    assert_eq!(
        ops,
        vec![
            DrawOp::Save,
            DrawOp::SetColor(red()),
            DrawOp::SetLineWidth(2),
            DrawOp::RoundCap,
            DrawOp::MoveTo(u(10), u(10)),
            DrawOp::LineTo(u(90), u(10)),
            DrawOp::Stroke,
            DrawOp::Restore,
        ]
    );
    assert_eq!(tools.clear_all(), 1);
    assert!(tools.strokes.is_empty());
    assert!(tools.draw_all().is_empty());
}

#[test]
fn palette_and_thickness_options() {
    let colors = AnnotationTools::get_predefined_colors();
    assert_eq!(colors.len(), 8);
    assert_eq!(colors[0], red());
    assert_eq!(colors[7], Rgba::new(255, 255, 255, 255));
    assert_eq!(AnnotationTools::get_thickness_options(), vec![1, 3, 5, 8, 12]);
}
