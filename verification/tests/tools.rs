use sketchover::keymap::Modifiers;
use sketchover::tools::draw::circle::{isqrt, Circle};
use sketchover::tools::draw::draw::diff;
use sketchover::tools::draw::line::Line;
use sketchover::tools::draw::pen::Pen;
use sketchover::tools::draw::rekt::Rect;
use sketchover::tools::{DrawKind, Point, Segment, Tool};

fn px(v: f64) -> i32 {
    (v * 256.0).round() as i32
}

fn shift() -> Modifiers {
    let mut m = Modifiers::none();
    m.shift = true;
    m
}

#[test]
fn pen_grows_by_each_motion_in_order() {
    let mut pen = Pen::new((px(1.0), px(1.0)));
    pen.update((px(2.0), px(2.0)));
    pen.update((px(3.0), px(3.0)));
    assert_eq!(pen.lines, vec![(256, 256), (512, 512), (768, 768)]);
}

#[test]
fn pen_takes_the_same_position_again() {
    let mut pen = Pen::new((1, 1));
    pen.update((2, 2));
    pen.update((2, 2));
    assert_eq!(pen.lines, vec![(1, 1), (2, 2), (2, 2)]);
}

#[test]
fn pen_path_moves_then_draws_each_piece() {
    let mut pen = Pen::new((1, 1));
    pen.update((2, 2));
    pen.update((3, 3));
    assert_eq!(
        pen.draw(),
        vec![
            Segment::MoveTo(Point { x: 1, y: 1 }),
            Segment::LineTo(Point { x: 2, y: 2 }),
            Segment::MoveTo(Point { x: 2, y: 2 }),
            Segment::LineTo(Point { x: 3, y: 3 }),
            Segment::MoveTo(Point { x: 3, y: 3 }),
        ]
    );
}

#[test]
fn pen_of_one_point_has_no_visible_piece() {
    let pen = Pen::new((7, -9));
    assert_eq!(pen.draw(), vec![Segment::MoveTo(Point { x: 7, y: -9 })]);
    assert_eq!(pen.draw(), pen.draw());
}

#[test]
fn pen_without_points_has_the_empty_path() {
    let pen = Pen { lines: Vec::new() };
    assert_eq!(pen.draw(), Vec::new());
}

#[test]
fn pen_has_no_size() {
    let mut tool = Tool::new(DrawKind::Pen, (0, 0));
    tool.update((100, 100));
    assert_eq!(tool.draw_size(), None);
}

#[test]
fn free_line_follows_the_pointer() {
    let mut line = Line::new((0, 0));
    line.update((10, 3));
    assert_eq!(line.stop(), Point { x: 10, y: 3 });
    line.update((-4, 7));
    assert_eq!(line.stop(), Point { x: -4, y: 7 });
}

#[test]
fn fresh_line_reaches_twenty_pixels() {
    let line = Line::new((px(5.0), px(-2.0)));
    assert_eq!(line.stop(), Point { x: px(25.0) as i64, y: px(18.0) as i64 });
    let line = Line::new((i32::MAX, i32::MAX));
    assert_eq!(line.stop(), Point { x: i32::MAX as i64 + 5120, y: i32::MAX as i64 + 5120 });
}

#[test]
fn locked_line_keeps_the_axis_of_the_longer_way() {
    let mut line = Line::new((0, 0));
    line.modifier(&shift());
    line.update((10, 3));
    assert_eq!(line.stop(), Point { x: 10, y: 0 });
    line.update((3, 10));
    assert_eq!(line.stop(), Point { x: 0, y: 10 });
    line.update((-10, 3));
    assert_eq!(line.stop(), Point { x: -10, y: 0 });
    line.update((3, -10));
    assert_eq!(line.stop(), Point { x: 0, y: -10 });
}

#[test]
fn locked_line_is_vertical_on_a_tie() {
    let mut line = Line::new((4, 4));
    line.modifier(&shift());
    line.update((9, 9));
    assert_eq!(line.stop(), Point { x: 4, y: 9 });
}

#[test]
fn released_line_is_back_at_the_pointer() {
    let mut line = Line::new((0, 0));
    line.update((10, 3));
    line.modifier(&shift());
    assert_eq!(line.stop(), Point { x: 10, y: 0 });
    line.modifier(&Modifiers::none());
    assert_eq!(line.stop(), Point { x: 10, y: 3 });
}

#[test]
fn line_update_with_the_same_point_changes_nothing() {
    let mut line = Line::new((0, 0));
    line.modifier(&shift());
    line.update((10, 3));
    let once = line;
    line.update((10, 3));
    assert_eq!(line, once);
}

#[test]
fn line_path_and_size() {
    let mut line = Line::new((1, 2));
    line.update((-9, 6));
    assert_eq!(
        line.draw(),
        vec![Segment::MoveTo(Point { x: 1, y: 2 }), Segment::LineTo(Point { x: -9, y: 6 })]
    );
    assert_eq!(line.draw_size(), ((10, 4), Point { x: -9, y: 6 }));
}

#[test]
fn distance_along_each_axis() {
    assert_eq!(diff((1, 2), (10, -3)), (9, -5));
    assert_eq!(diff((i32::MIN, i32::MAX), (i32::MAX, i32::MIN)), (4294967295, -4294967295));
}

#[test]
fn free_rect_reaches_to_the_pointer() {
    let mut rect = Rect::new((2, 3));
    assert_eq!(rect.extent(), (5120, 5120));
    rect.update((10, 1));
    assert_eq!(rect.extent(), (8, -2));
}

#[test]
fn constrained_rect_is_a_square_on_the_longer_side() {
    let mut rect = Rect::new((0, 0));
    rect.modifier(&shift());
    rect.update((10, 3));
    assert_eq!(rect.extent(), (10, 10));
    rect.update((10, -3));
    assert_eq!(rect.extent(), (10, -10));
    rect.update((-10, 3));
    assert_eq!(rect.extent(), (-10, 10));
    rect.update((3, 10));
    assert_eq!(rect.extent(), (10, 10));
    rect.update((-3, -10));
    assert_eq!(rect.extent(), (-10, -10));
    rect.update((10, 0));
    assert_eq!(rect.extent(), (10, 10));
    rect.update((7, -7));
    assert_eq!(rect.extent(), (7, -7));
}

#[test]
fn released_rect_is_back_at_the_pointer() {
    let mut rect = Rect::new((0, 0));
    rect.modifier(&shift());
    rect.update((10, 3));
    rect.modifier(&Modifiers::none());
    assert_eq!(rect.extent(), (10, 3));
}

#[test]
fn rect_path_keeps_negative_sides() {
    let mut rect = Rect::new((5, 5));
    rect.update((1, 9));
    assert_eq!(
        rect.draw(),
        vec![
            Segment::MoveTo(Point { x: 5, y: 5 }),
            Segment::Rect { origin: Point { x: 5, y: 5 }, width: -4, height: 4 },
        ]
    );
    assert_eq!(rect.draw_size(), ((4, 4), Point { x: 1, y: 9 }));
}

#[test]
fn circle_radius_is_a_quarter_of_the_distance() {
    let mut circle = Circle::new((0, 0));
    circle.update((4, 0));
    assert_eq!(circle.arc(), (Point { x: 2, y: 0 }, 1));
    assert_eq!(
        circle.draw(),
        vec![Segment::Arc { center: Point { x: 2, y: 0 }, radius: 1 }]
    );
    let mut circle = Circle::new((px(0.0), px(0.0)));
    circle.update((px(4.0), px(0.0)));
    assert_eq!(circle.arc(), (Point { x: px(2.0) as i64, y: 0 }, px(1.0) as i64));
}

#[test]
fn circle_on_a_slope() {
    let mut circle = Circle::new((-3, 1));
    circle.update((9, 17));
    // the distance is 20
    assert_eq!(circle.arc(), (Point { x: 3, y: 9 }, 5));
    assert_eq!(circle.draw_size(), ((10, 10), Point { x: 9, y: 17 }));
}

#[test]
fn circle_centre_rounds_down() {
    let mut circle = Circle::new((0, 0));
    circle.update((-3, 5));
    assert_eq!(circle.arc().0, Point { x: -2, y: 2 });
}

#[test]
fn fresh_circle_is_a_point() {
    let circle = Circle::new((8, 8));
    assert_eq!(circle.arc(), (Point { x: 8, y: 8 }, 0));
}

#[test]
fn circle_at_the_ends_of_the_range() {
    let mut circle = Circle::new((i32::MIN, i32::MIN));
    circle.update((i32::MAX, i32::MAX));
    // 4294967295 * sqrt(2) = 6074000998.2..., a quarter of it 1518500249.5...
    assert_eq!(circle.arc(), (Point { x: -1, y: -1 }, 1518500249));
}

#[test]
fn square_roots_round_down() {
    assert_eq!(isqrt(0), 0);
    assert_eq!(isqrt(1), 1);
    assert_eq!(isqrt(3), 1);
    assert_eq!(isqrt(4), 2);
    assert_eq!(isqrt(99), 9);
    assert_eq!(isqrt(100), 10);
    assert_eq!(isqrt(u64::MAX as u128), 4294967295);
    assert_eq!(isqrt(u128::MAX), u64::MAX);
    for n in 0..2000u128 {
        let r = isqrt(n) as u128;
        assert!(r * r <= n && n < (r + 1) * (r + 1));
    }
}

#[test]
fn tool_keeps_its_kind() {
    for kind in [DrawKind::Pen, DrawKind::Line, DrawKind::Rect, DrawKind::Circle] {
        let mut tool = Tool::new(kind, (1, 1));
        assert_eq!(tool.kind(), kind);
        tool.update((5, 9));
        tool.modifier(&shift());
        tool.update((5, 9));
        assert_eq!(tool.kind(), kind);
    }
}

#[test]
fn tool_starts_as_its_shape_does() {
    assert_eq!(Tool::new(DrawKind::Pen, (1, 2)), Tool::Pen(Pen::new((1, 2))));
    assert_eq!(Tool::new(DrawKind::Line, (1, 2)), Tool::Line(Line::new((1, 2))));
    assert_eq!(Tool::new(DrawKind::Rect, (1, 2)), Tool::Rect(Rect::new((1, 2))));
    assert_eq!(Tool::new(DrawKind::Circle, (1, 2)), Tool::Circle(Circle::new((1, 2))));
}

#[test]
fn modifiers_leave_pen_and_circle_alone() {
    let mut pen = Tool::new(DrawKind::Pen, (1, 2));
    pen.modifier(&shift());
    assert_eq!(pen, Tool::new(DrawKind::Pen, (1, 2)));
    let mut circle = Tool::new(DrawKind::Circle, (1, 2));
    circle.update((10, 3));
    let before = circle.draw();
    circle.modifier(&shift());
    assert_eq!(circle.draw(), before);
}

#[test]
fn drawing_does_not_change_the_tool() {
    let mut tool = Tool::new(DrawKind::Rect, (1, 2));
    tool.update((10, 3));
    let first = tool.draw();
    let second = tool.draw();
    assert_eq!(first, second);
    assert_eq!(tool.draw_size(), Some(((9, 1), Point { x: 10, y: 3 })));
}
