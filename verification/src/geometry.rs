//! Points, rectangles, colours and strokes, in the host's integer units.

use vstd::prelude::*;

verus! {

/// A position or an extent as the host reports it.
#[derive(Clone, Copy, Debug, PartialEq, Eq, Structural)]
pub struct Point {
    pub x: i32,
    pub y: i32,
}

/// A position in the finished document: a host position moved to the
/// document's origin.
#[derive(Clone, Copy, Debug, PartialEq, Eq, Structural)]
pub struct DocPoint {
    pub x: i64,
    pub y: i64,
}

/// The mathematical value of a [`DocPoint`].
pub struct SpecPoint {
    pub x: int,
    pub y: int,
}

impl View for DocPoint {
    type V = SpecPoint;

    open spec fn view(&self) -> SpecPoint {
        SpecPoint { x: self.x as int, y: self.y as int }
    }
}

/// Where `p` lies once `origin` has become the document's zero.
pub open spec fn shifted(p: Point, origin: Point) -> SpecPoint {
    SpecPoint { x: p.x - origin.x, y: p.y - origin.y }
}

impl Point {
    /// The point (0, 0).
    pub open spec fn zero() -> Point {
        Point { x: 0, y: 0 }
    }

    /// The point (0, 0).
    pub fn origin() -> (p: Point)
        ensures
            p == Point::zero(),
    {
        Point { x: 0, y: 0 }
    }

    /// Moves the point into a document whose zero is `origin`.
    pub fn shift(&self, origin: Point) -> (out: DocPoint)
        ensures
            out@ == shifted(*self, origin),
    {
        DocPoint { x: self.x as i64 - origin.x as i64, y: self.y as i64 - origin.y as i64 }
    }
}

/// An axis-aligned rectangle given by its two corners. A rectangle whose
/// `min` lies beyond its `max` on either axis covers nothing.
#[derive(Clone, Copy, Debug, PartialEq, Eq, Structural)]
pub struct Rect {
    pub min: Point,
    pub max: Point,
}

/// A rectangle of the finished document, by corner and size.
#[derive(Clone, Copy, Debug, PartialEq, Eq, Structural)]
pub struct DocRect {
    pub x: i64,
    pub y: i64,
    pub width: i64,
    pub height: i64,
}

/// The mathematical value of a [`DocRect`].
pub struct SpecRect {
    pub x: int,
    pub y: int,
    pub width: int,
    pub height: int,
}

impl View for DocRect {
    type V = SpecRect;

    open spec fn view(&self) -> SpecRect {
        SpecRect {
            x: self.x as int,
            y: self.y as int,
            width: self.width as int,
            height: self.height as int,
        }
    }
}

/// The smaller of two numbers.
pub open spec fn lesser(a: int, b: int) -> int {
    if a <= b {
        a
    } else {
        b
    }
}

/// The larger of two numbers.
pub open spec fn greater(a: int, b: int) -> int {
    if a >= b {
        a
    } else {
        b
    }
}

/// The rectangle that covers nothing and leaves every union unchanged.
pub open spec fn nothing_rect() -> Rect {
    Rect {
        min: Point { x: i32::MAX, y: i32::MAX },
        max: Point { x: i32::MIN, y: i32::MIN },
    }
}

/// The smallest rectangle that covers both `a` and `b`.
pub open spec fn union_rect(a: Rect, b: Rect) -> Rect {
    Rect {
        min: Point {
            x: lesser(a.min.x as int, b.min.x as int) as i32,
            y: lesser(a.min.y as int, b.min.y as int) as i32,
        },
        max: Point {
            x: greater(a.max.x as int, b.max.x as int) as i32,
            y: greater(a.max.y as int, b.max.y as int) as i32,
        },
    }
}

/// `rect` by corner and size, in a document whose zero is `origin`.
pub open spec fn shifted_rect(rect: Rect, origin: Point) -> SpecRect {
    SpecRect {
        x: rect.min.x - origin.x,
        y: rect.min.y - origin.y,
        width: rect.max.x - rect.min.x,
        height: rect.max.y - rect.min.y,
    }
}

/// The view box that shows exactly `rect`: its corner, then its size.
pub open spec fn viewbox_of(rect: Rect) -> SpecRect {
    shifted_rect(rect, Point::zero())
}

impl Rect {
    /// Whether the rectangle covers nothing.
    pub open spec fn covers_nothing(self) -> bool {
        self.min.x > self.max.x || self.min.y > self.max.y
    }

    /// The rectangle that covers nothing.
    pub fn nothing() -> (r: Rect)
        ensures
            r == nothing_rect(),
    {
        Rect {
            min: Point { x: i32::MAX, y: i32::MAX },
            max: Point { x: i32::MIN, y: i32::MIN },
        }
    }

    /// Whether the rectangle covers nothing.
    pub fn is_nothing(&self) -> (b: bool)
        ensures
            b == self.covers_nothing(),
    {
        self.min.x > self.max.x || self.min.y > self.max.y
    }

    /// The smallest rectangle that covers both.
    pub fn union(&self, other: &Rect) -> (r: Rect)
        ensures
            r == union_rect(*self, *other),
    {
        Rect {
            min: Point {
                x: if self.min.x <= other.min.x { self.min.x } else { other.min.x },
                y: if self.min.y <= other.min.y { self.min.y } else { other.min.y },
            },
            max: Point {
                x: if self.max.x >= other.max.x { self.max.x } else { other.max.x },
                y: if self.max.y >= other.max.y { self.max.y } else { other.max.y },
            },
        }
    }

    /// The rectangle by corner and size, in a document whose zero is `origin`.
    pub fn shift(&self, origin: Point) -> (out: DocRect)
        ensures
            out@ == shifted_rect(*self, origin),
    {
        DocRect {
            x: self.min.x as i64 - origin.x as i64,
            y: self.min.y as i64 - origin.y as i64,
            width: self.max.x as i64 - self.min.x as i64,
            height: self.max.y as i64 - self.min.y as i64,
        }
    }
}

/// The view box that shows exactly `rect`: its corner, then its size.
pub fn rect_to_viewbox(rect: Rect) -> (out: DocRect)
    ensures
        out@ == viewbox_of(rect),
{
    rect.shift(Point::origin())
}

/// Covering nothing is the identity of union, and union neither depends on
/// the order of its arguments nor on how three of them are grouped.
pub proof fn lemma_union_laws(a: Rect, b: Rect, c: Rect)
    ensures
        union_rect(nothing_rect(), a) == a,
        union_rect(a, nothing_rect()) == a,
        union_rect(a, b) == union_rect(b, a),
        union_rect(union_rect(a, b), c) == union_rect(a, union_rect(b, c)),
{
}

/// An 8-bit colour with alpha, premultiplied as the host stores it.
#[derive(Clone, Copy, Debug, PartialEq, Eq, Structural)]
pub struct Color {
    pub r: u8,
    pub g: u8,
    pub b: u8,
    pub a: u8,
}

/// The colour that stands for "take the text's fallback colour".
pub open spec fn placeholder_color() -> Color {
    Color { r: 64, g: 254, b: 0, a: 128 }
}

/// Fully transparent black, the colour of a stroke that is not drawn.
pub open spec fn transparent_color() -> Color {
    Color { r: 0, g: 0, b: 0, a: 0 }
}

impl Color {
    /// The colour that stands for "take the text's fallback colour".
    pub fn placeholder() -> (c: Color)
        ensures
            c == placeholder_color(),
    {
        Color { r: 64, g: 254, b: 0, a: 128 }
    }

    /// Fully transparent black.
    pub fn transparent() -> (c: Color)
        ensures
            c == transparent_color(),
    {
        Color { r: 0, g: 0, b: 0, a: 0 }
    }

    /// An opaque colour.
    pub fn rgb(r: u8, g: u8, b: u8) -> (c: Color)
        ensures
            c == (Color { r, g, b, a: 255 }),
    {
        Color { r, g, b, a: 255 }
    }

    /// Whether nothing shows through the colour.
    pub open spec fn opaque(self) -> bool {
        self.a == 255
    }

    /// Whether nothing shows through the colour.
    pub fn is_opaque(&self) -> (b: bool)
        ensures
            b == self.opaque(),
    {
        self.a == 255
    }
}

/// The outline of a shape: a width and a colour.
#[derive(Clone, Copy, Debug, PartialEq, Eq, Structural)]
pub struct Stroke {
    pub width: i32,
    pub color: Color,
}

/// The stroke as it is drawn: none when its width is zero or its colour is
/// the transparent one.
pub open spec fn visible_stroke(stroke: Stroke) -> Option<Stroke> {
    if stroke.width == 0 || stroke.color == transparent_color() {
        None
    } else {
        Some(stroke)
    }
}

impl Stroke {
    /// The stroke that is not drawn.
    pub fn none() -> (s: Stroke)
        ensures
            s == (Stroke { width: 0, color: transparent_color() }),
            visible_stroke(s) is None,
    {
        Stroke { width: 0, color: Color::transparent() }
    }

    /// The stroke as it is drawn, if it is drawn at all.
    pub fn visible(&self) -> (out: Option<Stroke>)
        ensures
            out == visible_stroke(*self),
    {
        if self.width == 0 || self.color == Color::transparent() {
            None
        } else {
            Some(*self)
        }
    }
}

} // verus!
