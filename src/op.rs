use vstd::prelude::*;
use crate::api::{Circle, Pixel, Point, Rectangle, RoundedRectangle};
use crate::fb::LcdFB;
use crate::sweep::{draw_sweep, steps_to, swept, Rule, Shape, Sweep};

verus! {

/// The corner of a box that a quarter circle rounds off.
#[derive(Clone, Copy, Debug, PartialEq, Eq, Structural)]
pub enum Quadrant {
    TopLeft,
    TopRight,
    BottomLeft,
    BottomRight,
}

pub open spec fn abs_radius(c: Circle) -> int {
    if c.radius < 0 { -(c.radius as int) } else { c.radius as int }
}

/// The square of side `2r + 1` around the circle's center lies on the plane.
pub open spec fn circle_fits(c: Circle) -> bool {
    let r = abs_radius(c);
    &&& -32768 <= c.center.x - r
    &&& c.center.x + r <= 32767
    &&& -32768 <= c.center.y - r
    &&& c.center.y + r <= 32767
}

/// The circle's sweep: every point of its bounding square, in row-major order.
pub open spec fn circle_shape(c: Circle, clip: Option<Rectangle>) -> Shape {
    let r = abs_radius(c);
    Shape {
        rule: Rule::Round { center: c.center, radius: r as i16 },
        style: c.style,
        clip,
        x_lo: (c.center.x - r) as i32,
        x_hi: (c.center.x + r) as i32,
        y_lo: (c.center.y - r) as i32,
        end_x: (c.center.x - r) as i32,
        end_y: (c.center.y + r + 1) as i32,
    }
}

/// The rectangle's sweep: every point of `tl..=br` in row-major order (one
/// column, at `tl.x`, where `br.x < tl.x`; nothing where `br.y < tl.y`).
pub open spec fn rect_shape(rect: Rectangle, clip: Option<Rectangle>) -> Shape {
    let (l, t, r, b) = (rect.tl.x as int, rect.tl.y as int, rect.br.x as int, rect.br.y as int);
    Shape {
        rule: Rule::Boxy { tl: rect.tl, br: rect.br, corner: 0 },
        style: rect.style,
        clip,
        x_lo: l as i32,
        x_hi: if r < l { l as i32 } else { r as i32 },
        y_lo: t as i32,
        end_x: l as i32,
        end_y: if t <= b { (b + 1) as i32 } else { t as i32 },
    }
}

/// The body of a rounded rectangle: the rectangle's sweep with its four
/// `radius` x `radius` corner boxes left out.
pub open spec fn rr_body_shape(rr: RoundedRectangle, clip: Option<Rectangle>) -> Shape {
    let s = rect_shape(rr.border, clip);
    Shape { rule: Rule::Boxy { tl: rr.border.tl, br: rr.border.br, corner: rr.radius }, ..s }
}

/// The quarter of the circle's bounding square that `q` selects, all rows
/// down to the one below the center for the top corners (without its last
/// point), and down to row `radius + 1` below the center for the bottom ones.
pub open spec fn quadrant_shape(c: Circle, q: Quadrant, clip: Option<Rectangle>) -> Shape {
    let (cx, cy, r) = (c.center.x as int, c.center.y as int, c.radius as int);
    let rule = Rule::Round { center: c.center, radius: c.radius };
    match q {
        Quadrant::TopLeft => Shape {
            rule,
            style: c.style,
            clip,
            x_lo: (cx - r) as i32,
            x_hi: cx as i32,
            y_lo: (cy - r) as i32,
            end_x: cx as i32,
            end_y: (cy + 1) as i32,
        },
        Quadrant::TopRight => Shape {
            rule,
            style: c.style,
            clip,
            x_lo: cx as i32,
            x_hi: (cx + r) as i32,
            y_lo: (cy - r) as i32,
            end_x: (cx + r) as i32,
            end_y: (cy + 1) as i32,
        },
        Quadrant::BottomLeft => Shape {
            rule,
            style: c.style,
            clip,
            x_lo: (cx - r) as i32,
            x_hi: cx as i32,
            y_lo: cy as i32,
            end_x: (cx - r) as i32,
            end_y: (cy + r + 2) as i32,
        },
        Quadrant::BottomRight => Shape {
            rule,
            style: c.style,
            clip,
            x_lo: cx as i32,
            x_hi: (cx + r) as i32,
            y_lo: cy as i32,
            end_x: cx as i32,
            end_y: (cy + r + 2) as i32,
        },
    }
}

/// A quarter circle of non-negative radius whose sweep lies on the plane.
pub open spec fn quadrant_fits(c: Circle, q: Quadrant) -> bool {
    let (cx, cy, r) = (c.center.x as int, c.center.y as int, c.radius as int);
    r >= 0 ==> match q {
        Quadrant::TopLeft => -32768 <= cx - r && -32768 <= cy - r && cy + 1 <= 32767,
        Quadrant::TopRight => cx + r <= 32767 && -32768 <= cy - r && cy + 1 <= 32767,
        Quadrant::BottomLeft => -32768 <= cx - r && cy + r + 1 <= 32767,
        Quadrant::BottomRight => cx + r <= 32767 && cy + r + 1 <= 32767,
    }
}

/// The cursor at the start of `s`.
pub open spec fn start_of(s: Shape) -> Sweep {
    Sweep { shape: s, x: s.x_lo, y: s.y_lo }
}

/// What a circle emits, in row-major order.
pub struct CircleIterator {
    pub sweep: Sweep,
}

impl CircleIterator {
    pub fn new(circle: Circle, clip: Option<Rectangle>) -> (r: CircleIterator)
        requires
            circle_fits(circle),
        ensures
            r.sweep == start_of(circle_shape(circle, clip)),
            r.sweep.wf(),
    {
        let r: i32 = if circle.radius < 0 { -(circle.radius as i32) } else { circle.radius as i32 };
        let cx = circle.center.x as i32;
        let cy = circle.center.y as i32;
        let shape = Shape {
            rule: Rule::Round { center: circle.center, radius: r as i16 },
            style: circle.style,
            clip,
            x_lo: cx - r,
            x_hi: cx + r,
            y_lo: cy - r,
            end_x: cx - r,
            end_y: cy + r + 1,
        };
        CircleIterator { sweep: Sweep { shape, x: cx - r, y: cy - r } }
    }

    /// The next pixel of the circle, or `None` when it is done.
    pub fn next(&mut self) -> (r: Option<Pixel>)
        requires
            old(self).sweep.wf(),
        ensures
            steps_to(old(self).sweep, final(self).sweep, r),
    {
        self.sweep.next_pixel()
    }
}

/// Draws a circle: every point of its sweep that the clip region admits, in
/// the stroke color within the border band, else in the fill color within
/// the disc.
pub fn circle(fb: &mut LcdFB, circle: Circle, clip: Option<Rectangle>)
    requires
        circle_fits(circle),
    ensures
        final(fb)@ == swept(old(fb)@, circle_shape(circle, clip)),
{
    let it = CircleIterator::new(circle, clip);
    draw_sweep(fb, it.sweep);
}

/// What a rectangle emits, in row-major order.
pub struct RectangleIterator {
    pub sweep: Sweep,
}

impl RectangleIterator {
    pub fn new(rect: Rectangle, clip: Option<Rectangle>) -> (r: RectangleIterator)
        ensures
            r.sweep == start_of(rect_shape(rect, clip)),
            r.sweep.wf(),
    {
        let l = rect.tl.x as i32;
        let t = rect.tl.y as i32;
        let shape = Shape {
            rule: Rule::Boxy { tl: rect.tl, br: rect.br, corner: 0 },
            style: rect.style,
            clip,
            x_lo: l,
            x_hi: if (rect.br.x as i32) < l { l } else { rect.br.x as i32 },
            y_lo: t,
            end_x: l,
            end_y: if t <= rect.br.y as i32 { rect.br.y as i32 + 1 } else { t },
        };
        RectangleIterator { sweep: Sweep { shape, x: l, y: t } }
    }

    /// The next pixel of the rectangle, or `None` when it is done.
    pub fn next(&mut self) -> (r: Option<Pixel>)
        requires
            old(self).sweep.wf(),
        ensures
            steps_to(old(self).sweep, final(self).sweep, r),
    {
        self.sweep.next_pixel()
    }
}

/// Draws a rectangle: every point of it that the clip region admits, in the
/// stroke color within `stroke_width` of an edge, else in the fill color.
pub fn rectangle(fb: &mut LcdFB, rect: Rectangle, clip: Option<Rectangle>)
    ensures
        final(fb)@ == swept(old(fb)@, rect_shape(rect, clip)),
{
    let it = RectangleIterator::new(rect, clip);
    draw_sweep(fb, it.sweep);
}

/// What a quarter circle emits, in row-major order.
pub struct QuadrantIterator {
    pub sweep: Sweep,
}

impl QuadrantIterator {
    pub fn new(circle: Circle, quad: Quadrant, clip: Option<Rectangle>) -> (r: QuadrantIterator)
        requires
            circle.radius >= 0,
            quadrant_fits(circle, quad),
        ensures
            r.sweep == start_of(quadrant_shape(circle, quad, clip)),
            r.sweep.wf(),
    {
        let cx = circle.center.x as i32;
        let cy = circle.center.y as i32;
        let r = circle.radius as i32;
        let (x_lo, x_hi, y_lo, end_x, end_y) = match quad {
            Quadrant::TopLeft => (cx - r, cx, cy - r, cx, cy + 1),
            Quadrant::TopRight => (cx, cx + r, cy - r, cx + r, cy + 1),
            Quadrant::BottomLeft => (cx - r, cx, cy, cx - r, cy + r + 2),
            Quadrant::BottomRight => (cx, cx + r, cy, cx, cy + r + 2),
        };
        let shape = Shape {
            rule: Rule::Round { center: circle.center, radius: circle.radius },
            style: circle.style,
            clip,
            x_lo,
            x_hi,
            y_lo,
            end_x,
            end_y,
        };
        QuadrantIterator { sweep: Sweep { shape, x: x_lo, y: y_lo } }
    }

    /// The next pixel of the quarter circle, or `None` when it is done.
    pub fn next(&mut self) -> (r: Option<Pixel>)
        requires
            old(self).sweep.wf(),
        ensures
            steps_to(old(self).sweep, final(self).sweep, r),
    {
        self.sweep.next_pixel()
    }
}

/// Draws the quarter of a circle that `quad` selects, classified as a whole
/// circle is; a negative radius draws nothing.
pub fn quadrant(fb: &mut LcdFB, circle: Circle, quad: Quadrant, clip: Option<Rectangle>)
    requires
        quadrant_fits(circle, quad),
    ensures
        circle.radius < 0 ==> final(fb)@ == old(fb)@,
        circle.radius >= 0 ==> final(fb)@ == swept(old(fb)@, quadrant_shape(circle, quad, clip)),
{
    if circle.radius < 0 {
        return;
    }
    let it = QuadrantIterator::new(circle, quad, clip);
    draw_sweep(fb, it.sweep);
}

/// The circle whose quarter rounds off corner `q` of the rounded rectangle:
/// centered `radius` in from both edges that meet there.
pub open spec fn corner_circle(rr: RoundedRectangle, q: Quadrant) -> Circle {
    let b = rr.border;
    let k = rr.radius as int;
    let (cx, cy) = match q {
        Quadrant::TopLeft => (b.tl.x + k, b.tl.y + k),
        Quadrant::TopRight => (b.br.x - k, b.tl.y + k),
        Quadrant::BottomLeft => (b.tl.x + k, b.br.y - k),
        Quadrant::BottomRight => (b.br.x - k, b.br.y - k),
    };
    Circle { center: Point { x: cx as i16, y: cy as i16 }, radius: rr.radius, style: b.style }
}

/// With a positive radius, the corner circles and their sweeps lie on the plane.
pub open spec fn rr_fits(rr: RoundedRectangle) -> bool {
    let b = rr.border;
    let k = rr.radius as int;
    k > 0 ==> {
        &&& b.tl.x + k <= 32767
        &&& -32768 <= b.br.x - k
        &&& b.tl.y + k + 1 <= 32767
        &&& -32768 <= b.br.y - k
        &&& b.br.y + 1 <= 32767
    }
}

/// The buffer after drawing a rounded rectangle: the body first, then, for a
/// positive radius, the top-left, top-right, bottom-left and bottom-right
/// corners.
pub open spec fn rounded_rectangle_spec(fb: Seq<u32>, rr: RoundedRectangle, clip: Option<Rectangle>) -> Seq<u32> {
    let body = swept(fb, rr_body_shape(rr, clip));
    if rr.radius > 0 {
        let a = swept(body, quadrant_shape(corner_circle(rr, Quadrant::TopLeft), Quadrant::TopLeft, clip));
        let b = swept(a, quadrant_shape(corner_circle(rr, Quadrant::TopRight), Quadrant::TopRight, clip));
        let c = swept(b, quadrant_shape(corner_circle(rr, Quadrant::BottomLeft), Quadrant::BottomLeft, clip));
        swept(c, quadrant_shape(corner_circle(rr, Quadrant::BottomRight), Quadrant::BottomRight, clip))
    } else {
        body
    }
}

/// What the body of a rounded rectangle emits, in row-major order.
pub struct RoundedRectangleIterator {
    pub sweep: Sweep,
}

impl RoundedRectangleIterator {
    pub fn new(rr: RoundedRectangle, clip: Option<Rectangle>) -> (r: RoundedRectangleIterator)
        ensures
            r.sweep == start_of(rr_body_shape(rr, clip)),
            r.sweep.wf(),
    {
        let mut it = RectangleIterator::new(rr.border, clip);
        it.sweep.shape.rule = Rule::Boxy { tl: rr.border.tl, br: rr.border.br, corner: rr.radius };
        RoundedRectangleIterator { sweep: it.sweep }
    }

    /// The next pixel of the body, or `None` when it is done.
    pub fn next(&mut self) -> (r: Option<Pixel>)
        requires
            old(self).sweep.wf(),
        ensures
            steps_to(old(self).sweep, final(self).sweep, r),
    {
        self.sweep.next_pixel()
    }
}

/// Draws a rectangle with quarter-circle corners: the body with its corner
/// boxes left out, then the four corners over it.
pub fn rounded_rectangle(fb: &mut LcdFB, rr: RoundedRectangle, clip: Option<Rectangle>)
    requires
        rr_fits(rr),
    ensures
        final(fb)@ == rounded_rectangle_spec(old(fb)@, rr, clip),
{
    let body = RoundedRectangleIterator::new(rr, clip);
    draw_sweep(fb, body.sweep);
    if rr.radius <= 0 {
        return;
    }
    let b = rr.border;
    let k = rr.radius;
    let (l, t, r, bt) = (b.tl.x, b.tl.y, b.br.x, b.br.y);
    let tlc = Circle::new_with_style(Point::new(l + k, t + k), k, b.style);
    quadrant(fb, tlc, Quadrant::TopLeft, clip);
    let trc = Circle::new_with_style(Point::new(r - k, t + k), k, b.style);
    quadrant(fb, trc, Quadrant::TopRight, clip);
    let blc = Circle::new_with_style(Point::new(l + k, bt - k), k, b.style);
    quadrant(fb, blc, Quadrant::BottomLeft, clip);
    let brc = Circle::new_with_style(Point::new(r - k, bt - k), k, b.style);
    quadrant(fb, brc, Quadrant::BottomRight, clip);
}

} // verus!
