//! Points, rectangles and colours in fixed-point device coordinates.

use crate::fixed::{fits, narrowed};
use vstd::prelude::*;

verus! {

/// A point; both coordinates are fixed-point numbers.
#[derive(Clone, Copy, Debug, PartialEq, Eq, Structural)]
pub struct Point {
    pub x: i64,
    pub y: i64,
}

/// A width and a height, in fixed-point numbers.
#[derive(Clone, Copy, Debug, PartialEq, Eq, Structural)]
pub struct Size {
    pub width: i64,
    pub height: i64,
}

/// An axis-aligned rectangle from `(x0, y0)` to `(x1, y1)`, in fixed-point numbers.
#[derive(Clone, Copy, Debug, PartialEq, Eq, Structural)]
pub struct Rect {
    pub x0: i64,
    pub y0: i64,
    pub x1: i64,
    pub y1: i64,
}

/// The larger of two numbers.
pub open spec fn max_of(a: int, b: int) -> int {
    if a >= b {
        a
    } else {
        b
    }
}

/// The smaller of two numbers.
pub open spec fn min_of(a: int, b: int) -> int {
    if a <= b {
        a
    } else {
        b
    }
}

fn larger(a: i64, b: i64) -> (m: i64)
    ensures
        m == max_of(a as int, b as int),
{
    if a >= b {
        a
    } else {
        b
    }
}

fn smaller(a: i64, b: i64) -> (m: i64)
    ensures
        m == min_of(a as int, b as int),
{
    if a <= b {
        a
    } else {
        b
    }
}

impl Rect {
    /// The rectangle with all four coordinates zero.
    pub open spec fn zero() -> Rect {
        Rect { x0: 0, y0: 0, x1: 0, y1: 0 }
    }

    /// The rectangle moved by `(dx, dy)`, where all four coordinates can be held.
    pub open spec fn translated(self, dx: i64, dy: i64) -> Option<Rect> {
        if fits(self.x0 + dx) && fits(self.y0 + dy) && fits(self.x1 + dx) && fits(self.y1 + dy) {
            Some(
                Rect {
                    x0: (self.x0 + dx) as i64,
                    y0: (self.y0 + dy) as i64,
                    x1: (self.x1 + dx) as i64,
                    y1: (self.y1 + dy) as i64,
                },
            )
        } else {
            None
        }
    }

    /// The part that two rectangles share. Where they share nothing the result is
    /// empty: its width and height are never negative.
    pub open spec fn intersection(self, other: Rect) -> Rect {
        let x0 = max_of(self.x0 as int, other.x0 as int);
        let y0 = max_of(self.y0 as int, other.y0 as int);
        let x1 = min_of(self.x1 as int, other.x1 as int);
        let y1 = min_of(self.y1 as int, other.y1 as int);
        Rect { x0: x0 as i64, y0: y0 as i64, x1: max_of(x1, x0) as i64, y1: max_of(y1, y0) as i64 }
    }

    /// The rectangle grown by `w` to the left and to the right and by `h` upwards
    /// and downwards, where all four coordinates can be held.
    pub open spec fn inflated(self, w: int, h: int) -> Option<Rect> {
        if fits(self.x0 - w) && fits(self.y0 - h) && fits(self.x1 + w) && fits(self.y1 + h) {
            Some(
                Rect {
                    x0: (self.x0 - w) as i64,
                    y0: (self.y0 - h) as i64,
                    x1: (self.x1 + w) as i64,
                    y1: (self.y1 + h) as i64,
                },
            )
        } else {
            None
        }
    }

    /// The point `(x, y)` lies in the rectangle; the right and lower edges do not
    /// belong to it.
    pub open spec fn covers(self, x: int, y: int) -> bool {
        self.x0 <= x < self.x1 && self.y0 <= y < self.y1
    }

    /// Moves the rectangle by `(dx, dy)`.
    pub fn translate(&self, dx: i64, dy: i64) -> (moved: Option<Rect>)
        ensures
            moved == self.translated(dx, dy),
    {
        let x0 = self.x0.checked_add(dx);
        let y0 = self.y0.checked_add(dy);
        let x1 = self.x1.checked_add(dx);
        let y1 = self.y1.checked_add(dy);
        match (x0, y0, x1, y1) {
            (Some(x0), Some(y0), Some(x1), Some(y1)) => Some(Rect { x0, y0, x1, y1 }),
            _ => None,
        }
    }

    /// Intersects two rectangles.
    pub fn intersect(&self, other: &Rect) -> (shared: Rect)
        ensures
            shared == self.intersection(*other),
    {
        let x0 = larger(self.x0, other.x0);
        let y0 = larger(self.y0, other.y0);
        let x1 = smaller(self.x1, other.x1);
        let y1 = smaller(self.y1, other.y1);
        Rect { x0, y0, x1: larger(x1, x0), y1: larger(y1, y0) }
    }

    /// Grows the rectangle by `w` horizontally and `h` vertically on each side;
    /// negative amounts shrink it.
    pub fn inflate(&self, w: i64, h: i64) -> (grown: Option<Rect>)
        ensures
            grown == self.inflated(w as int, h as int),
    {
        let x0 = self.x0.checked_sub(w);
        let y0 = self.y0.checked_sub(h);
        let x1 = self.x1.checked_add(w);
        let y1 = self.y1.checked_add(h);
        match (x0, y0, x1, y1) {
            (Some(x0), Some(y0), Some(x1), Some(y1)) => Some(Rect { x0, y0, x1, y1 }),
            _ => None,
        }
    }

    /// The width, where it can be held.
    pub fn width(&self) -> (width: Option<i64>)
        ensures
            width == narrowed(self.x1 - self.x0),
    {
        self.x1.checked_sub(self.x0)
    }

    /// The height, where it can be held.
    pub fn height(&self) -> (height: Option<i64>)
        ensures
            height == narrowed(self.y1 - self.y0),
    {
        self.y1.checked_sub(self.y0)
    }
}

/// A straight line from `start` to `end`.
#[derive(Clone, Copy, Debug, PartialEq, Eq, Structural)]
pub struct Line {
    pub start: Point,
    pub end: Point,
}

/// One element of a path.
#[derive(Clone, Copy, Debug, PartialEq, Eq, Structural)]
pub enum PathEl {
    /// Start a subpath at the point.
    MoveTo(Point),
    /// A straight line to the point.
    LineTo(Point),
    /// A quadratic curve: control point, end point.
    QuadTo(Point, Point),
    /// A cubic curve: two control points, end point.
    CurveTo(Point, Point, Point),
    /// Close the subpath.
    ClosePath,
}

/// What can be filled, stroked or clipped to.
#[derive(Debug)]
pub enum Shape {
    Rect(Rect),
    Line(Line),
    Path(Vec<PathEl>),
}

impl Shape {
    /// The rectangle that the shape is, if it is one.
    pub open spec fn rect_of(self) -> Option<Rect> {
        match self {
            Shape::Rect(rect) => Some(rect),
            _ => None,
        }
    }

    /// The line that the shape is, if it is one.
    pub open spec fn line_of(self) -> Option<Line> {
        match self {
            Shape::Line(line) => Some(line),
            _ => None,
        }
    }

    /// The rectangle that the shape is, if it is one.
    pub fn as_rect(&self) -> (rect: Option<Rect>)
        ensures
            rect == self.rect_of(),
    {
        match self {
            Shape::Rect(rect) => Some(*rect),
            _ => None,
        }
    }

    /// The line that the shape is, if it is one.
    pub fn as_line(&self) -> (line: Option<Line>)
        ensures
            line == self.line_of(),
    {
        match self {
            Shape::Line(line) => Some(*line),
            _ => None,
        }
    }
}

/// A colour with eight bits each of red, green, blue and opacity.
#[derive(Clone, Copy, Debug, PartialEq, Eq, Structural)]
pub struct Color {
    pub r: u8,
    pub g: u8,
    pub b: u8,
    pub a: u8,
}

impl Color {
    /// Every pixel painted with the colour hides what lies under it.
    pub open spec fn is_opaque(self) -> bool {
        self.a == 255
    }

    /// A colour that lets nothing through.
    pub fn rgb8(r: u8, g: u8, b: u8) -> (color: Color)
        ensures
            color == (Color { r, g, b, a: 255 }),
    {
        Color { r, g, b, a: 255 }
    }

    /// A colour from its four channels.
    pub fn rgba8(r: u8, g: u8, b: u8, a: u8) -> (color: Color)
        ensures
            color == (Color { r, g, b, a }),
    {
        Color { r, g, b, a }
    }
}

/// The four channels of a colour in the order the shaders read them: red, green,
/// blue, opacity.
pub fn format_color(color: &Color) -> (channels: [u8; 4])
    ensures
        channels@ == seq![color.r, color.g, color.b, color.a],
{
    let channels = [color.r, color.g, color.b, color.a];
    assert(channels@ =~= seq![color.r, color.g, color.b, color.a]);
    channels
}

/// The intersection of two rectangles lies in both, and a point lies in it exactly
/// when it lies in both.
pub proof fn lemma_intersection_is_shared_part(a: Rect, b: Rect, x: int, y: int)
    ensures
        a.intersection(b).covers(x, y) <==> a.covers(x, y) && b.covers(x, y),
        a.intersection(b).x0 <= a.intersection(b).x1,
        a.intersection(b).y0 <= a.intersection(b).y1,
{
}

} // verus!
