use usvg_parser::number::Number;
use usvg_parser::path::{path_curves, Curve, PathSegment, Point};

fn p(x: f32, y: f32) -> Point {
    Point { x: Number::from_bits(x.to_bits()), y: Number::from_bits(y.to_bits()) }
}

#[test]
fn closing_draws_the_line_back_to_the_start_of_the_subpath() {
    let segments = vec![
        PathSegment::MoveTo(p(0.0, 0.0)),
        PathSegment::LineTo(p(10.0, 0.0)),
        PathSegment::LineTo(p(10.0, 10.0)),
        PathSegment::Close,
        PathSegment::LineTo(p(5.0, 5.0)),
    ];
    let curves = path_curves(&segments, p(0.0, 0.0));
    assert_eq!(
        curves,
        vec![
            Curve::Line(p(0.0, 0.0), p(10.0, 0.0)),
            Curve::Line(p(10.0, 0.0), p(10.0, 10.0)),
            Curve::Line(p(10.0, 10.0), p(0.0, 0.0)),
            Curve::Line(p(0.0, 0.0), p(5.0, 5.0)),
        ]
    );
}

#[test]
fn curves_start_where_the_pen_is() {
    let segments = vec![
        PathSegment::MoveTo(p(1.0, 1.0)),
        PathSegment::QuadTo(p(2.0, 2.0), p(3.0, 1.0)),
        PathSegment::CubicTo(p(4.0, 0.0), p(5.0, 0.0), p(6.0, 1.0)),
        PathSegment::MoveTo(p(20.0, 20.0)),
        PathSegment::LineTo(p(21.0, 20.0)),
        PathSegment::Close,
    ];
    let curves = path_curves(&segments, p(1.0, 1.0));
    assert_eq!(
        curves,
        vec![
            Curve::Quad(p(1.0, 1.0), p(2.0, 2.0), p(3.0, 1.0)),
            Curve::Cubic(p(3.0, 1.0), p(4.0, 0.0), p(5.0, 0.0), p(6.0, 1.0)),
            Curve::Line(p(20.0, 20.0), p(21.0, 20.0)),
            Curve::Line(p(21.0, 20.0), p(20.0, 20.0)),
        ]
    );
}

#[test]
fn moves_draw_nothing() {
    let segments = vec![PathSegment::MoveTo(p(1.0, 1.0)), PathSegment::MoveTo(p(2.0, 2.0))];
    assert_eq!(path_curves(&segments, p(1.0, 1.0)), vec![]);
    assert_eq!(path_curves(&[].to_vec(), p(1.0, 1.0)), vec![]);
}

#[test]
fn without_a_move_the_pen_starts_at_the_first_point() {
    let segments = vec![PathSegment::LineTo(p(3.0, 4.0)), PathSegment::Close];
    assert_eq!(
        path_curves(&segments, p(0.0, 0.0)),
        vec![Curve::Line(p(0.0, 0.0), p(3.0, 4.0)), Curve::Line(p(3.0, 4.0), p(0.0, 0.0))]
    );
}
