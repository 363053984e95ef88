use vstd::prelude::*;

verus! {

/// A point on the drawing plane.
#[derive(Clone, Copy, Debug, PartialEq, Eq, Structural)]
pub struct Point {
    pub x: i16,
    pub y: i16,
}

impl Point {
    pub fn new(x: i16, y: i16) -> (r: Point)
        ensures
            r.x == x,
            r.y == y,
    {
        Point { x, y }
    }
}

/// The two levels a pixel can take.
#[derive(Clone, Copy, Debug, PartialEq, Eq, Structural)]
pub enum PixelColor {
    Dark,
    Light,
}

/// Stroke and fill of a shape; with neither color the shape is transparent.
#[derive(Clone, Copy, Debug, PartialEq, Eq, Structural)]
pub struct DrawStyle {
    pub fill_color: Option<PixelColor>,
    pub stroke_color: Option<PixelColor>,
    pub stroke_width: i16,
}

impl DrawStyle {
    pub fn new(fill_color: Option<PixelColor>, stroke_color: Option<PixelColor>, stroke_width: i16) -> (r: DrawStyle)
        ensures
            r.fill_color == fill_color,
            r.stroke_color == stroke_color,
            r.stroke_width == stroke_width,
    {
        DrawStyle { fill_color, stroke_color, stroke_width }
    }
}

/// An axis-aligned rectangle given by its top-left and bottom-right corners,
/// both inclusive.
#[derive(Clone, Copy, Debug, PartialEq, Eq, Structural)]
pub struct Rectangle {
    pub tl: Point,
    pub br: Point,
    pub style: DrawStyle,
}

/// The style of a rectangle that only bounds a region: nothing is drawn with it.
pub open spec fn transparent() -> DrawStyle {
    DrawStyle { fill_color: None, stroke_color: None, stroke_width: 0 }
}

/// Whether `p` lies in the closed box spanned by `tl` and `br`.
pub open spec fn in_box(tl: Point, br: Point, x: int, y: int) -> bool {
    tl.x <= x <= br.x && tl.y <= y <= br.y
}

impl Rectangle {
    /// A bounding rectangle with a transparent style.
    pub fn new(tl: Point, br: Point) -> (r: Rectangle)
        ensures
            r.tl == tl,
            r.br == br,
            r.style == transparent(),
    {
        Rectangle { tl, br, style: DrawStyle { fill_color: None, stroke_color: None, stroke_width: 0 } }
    }

    pub fn new_with_style(tl: Point, br: Point, style: DrawStyle) -> (r: Rectangle)
        ensures
            r.tl == tl,
            r.br == br,
            r.style == style,
    {
        Rectangle { tl, br, style }
    }

    /// Whether `p` lies inside the rectangle, edges included.
    pub fn intersects_point(&self, p: Point) -> (r: bool)
        ensures
            r == in_box(self.tl, self.br, p.x as int, p.y as int),
    {
        self.tl.x <= p.x && p.x <= self.br.x && self.tl.y <= p.y && p.y <= self.br.y
    }
}

/// Whether an optional clip region lets the point `(x, y)` through.
pub open spec fn clip_admits(clip: Option<Rectangle>, x: int, y: int) -> bool {
    match clip {
        None => true,
        Some(c) => in_box(c.tl, c.br, x, y),
    }
}

/// A circle; the absolute value of `radius` is used.
#[derive(Clone, Copy, Debug, PartialEq, Eq, Structural)]
pub struct Circle {
    pub center: Point,
    pub radius: i16,
    pub style: DrawStyle,
}

impl Circle {
    pub fn new_with_style(center: Point, radius: i16, style: DrawStyle) -> (r: Circle)
        ensures
            r.center == center,
            r.radius == radius,
            r.style == style,
    {
        Circle { center, radius, style }
    }
}

/// A straight segment; only its stroke color is used.
#[derive(Clone, Copy, Debug, PartialEq, Eq, Structural)]
pub struct Line {
    pub start: Point,
    pub end: Point,
    pub style: DrawStyle,
}

impl Line {
    pub fn new_with_style(start: Point, end: Point, style: DrawStyle) -> (r: Line)
        ensures
            r.start == start,
            r.end == end,
            r.style == style,
    {
        Line { start, end, style }
    }
}

/// A rectangle whose corners are quarter circles of the given radius.
#[derive(Clone, Copy, Debug, PartialEq, Eq, Structural)]
pub struct RoundedRectangle {
    pub border: Rectangle,
    pub radius: i16,
}

impl RoundedRectangle {
    pub fn new(border: Rectangle, radius: i16) -> (r: RoundedRectangle)
        ensures
            r.border == border,
            r.radius == radius,
    {
        RoundedRectangle { border, radius }
    }
}

/// One emitted point with its color.
#[derive(Clone, Copy, Debug, PartialEq, Eq, Structural)]
pub struct Pixel(pub Point, pub PixelColor);

} // verus!
