use vstd::prelude::*;
use crate::number::Number;

verus! {

/// A point in user space.
#[derive(Clone, Copy, Debug, PartialEq, Eq, Structural)]
pub struct Point {
    pub x: Number,
    pub y: Number,
}

/// One segment of an outline.
#[derive(Clone, Copy, Debug, PartialEq, Eq, Structural)]
pub enum PathSegment {
    MoveTo(Point),
    LineTo(Point),
    QuadTo(Point, Point),
    CubicTo(Point, Point, Point),
    Close,
}

/// One piece of an outline that has a length: where it starts, its control
/// points if it is curved, and where it ends.
#[derive(Clone, Copy, Debug, PartialEq, Eq, Structural)]
pub enum Curve {
    Line(Point, Point),
    Quad(Point, Point, Point),
    Cubic(Point, Point, Point, Point),
}

/// Where the pen is, and where the subpath in progress began.
pub struct Pen {
    pub at: Point,
    pub moved_to: Point,
}

impl Pen {
    /// The pen after segment `seg`.
    pub open spec fn after(self, seg: PathSegment) -> Pen {
        match seg {
            PathSegment::MoveTo(p) => Pen { at: p, moved_to: p },
            PathSegment::LineTo(p) => Pen { at: p, ..self },
            PathSegment::QuadTo(_, p) => Pen { at: p, ..self },
            PathSegment::CubicTo(_, _, p) => Pen { at: p, ..self },
            PathSegment::Close => Pen { at: self.moved_to, ..self },
        }
    }

    /// The piece that segment `seg` draws from where the pen is; a move
    /// draws nothing, and closing draws the line back to where the subpath
    /// began.
    pub open spec fn draws(self, seg: PathSegment) -> Option<Curve> {
        match seg {
            PathSegment::MoveTo(_) => None,
            PathSegment::LineTo(p) => Some(Curve::Line(self.at, p)),
            PathSegment::QuadTo(c, p) => Some(Curve::Quad(self.at, c, p)),
            PathSegment::CubicTo(c1, c2, p) => Some(Curve::Cubic(self.at, c1, c2, p)),
            PathSegment::Close => Some(Curve::Line(self.at, self.moved_to)),
        }
    }
}

/// The pen after the first `n` of `segments`, having started at `first`.
pub open spec fn pen_after(segments: Seq<PathSegment>, first: Point, n: int) -> Pen
    decreases n,
{
    if n <= 0 {
        Pen { at: first, moved_to: first }
    } else {
        pen_after(segments, first, n - 1).after(segments[n - 1])
    }
}

/// The pieces that the first `n` of `segments` draw, the pen having started
/// at `first`.
pub open spec fn curves_upto(segments: Seq<PathSegment>, first: Point, n: int) -> Seq<Curve>
    decreases n,
{
    if n <= 0 {
        Seq::empty()
    } else {
        let before = curves_upto(segments, first, n - 1);
        match pen_after(segments, first, n - 1).draws(segments[n - 1]) {
            Some(c) => before.push(c),
            None => before,
        }
    }
}

/// The pieces of an outline whose lengths add up to the length of the
/// outline, in order. `first` is the first point of the outline.
pub fn path_curves(segments: &Vec<PathSegment>, first: Point) -> (curves: Vec<Curve>)
    ensures
        curves@ == curves_upto(segments@, first, segments@.len() as int),
{
    let mut prev = first;
    let mut prev_m = first;
    let mut curves: Vec<Curve> = Vec::new();
    let mut i: usize = 0;
    while i < segments.len()
        invariant
            i <= segments@.len(),
            pen_after(segments@, first, i as int) == (Pen { at: prev, moved_to: prev_m }),
            curves@ == curves_upto(segments@, first, i as int),
        decreases segments.len() - i,
    {
        match segments[i] {
            PathSegment::MoveTo(p) => {
                prev_m = p;
                prev = p;
            },
            PathSegment::LineTo(p) => {
                curves.push(Curve::Line(prev, p));
                prev = p;
            },
            PathSegment::QuadTo(c, p) => {
                curves.push(Curve::Quad(prev, c, p));
                prev = p;
            },
            PathSegment::CubicTo(c1, c2, p) => {
                curves.push(Curve::Cubic(prev, c1, c2, p));
                prev = p;
            },
            PathSegment::Close => {
                curves.push(Curve::Line(prev, prev_m));
                prev = prev_m;
            },
        }
        i = i + 1;
    }
    curves
}

} // verus!
