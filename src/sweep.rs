use vstd::prelude::*;
use crate::api::{clip_admits, DrawStyle, Pixel, PixelColor, Point, Rectangle};
use crate::fb::{put_pixel, put_pixel_spec, LcdFB};

verus! {

/// How a shape classifies the points it sweeps over.
#[derive(Clone, Copy, Debug, PartialEq, Eq, Structural)]
pub enum Rule {
    /// Distance bands around `center`: a stroke ring, then a filled disc.
    Round { center: Point, radius: i16 },
    /// Edge bands of the box `tl`..`br`; with `corner > 0` the four
    /// `corner` x `corner` boxes at its corners are left out.
    Boxy { tl: Point, br: Point, corner: i16 },
}

/// Whether `(x, y)` lies in the closed box `x0..=x1` x `y0..=y1`.
pub open spec fn in_span(x0: int, y0: int, x1: int, y1: int, x: int, y: int) -> bool {
    x0 <= x <= x1 && y0 <= y <= y1
}

/// Classification of a point by its squared distance to `(cx, cy)`: the
/// stroke ring takes priority over the disc.
pub open spec fn round_cell(cx: int, cy: int, r: int, style: DrawStyle, x: int, y: int) -> Option<PixelColor> {
    let len = (x - cx) * (x - cx) + (y - cy) * (y - cy);
    let inner = r - style.stroke_width + 1;
    if len > inner * inner - inner && len < r * r + inner && style.stroke_color.is_some() {
        style.stroke_color
    } else if len <= r * r + 1 && style.fill_color.is_some() {
        style.fill_color
    } else {
        None
    }
}

/// Classification of a point of a box: within `stroke_width` of an edge it
/// takes the stroke, elsewhere the fill.
pub open spec fn box_cell(tl: Point, br: Point, style: DrawStyle, x: int, y: int) -> Option<PixelColor> {
    let w = style.stroke_width as int;
    let border = (tl.y <= y < tl.y + w) || (br.y - w < y <= br.y) || (tl.x <= x < tl.x + w) || (br.x
        - w < x <= br.x);
    if border && style.stroke_color.is_some() {
        style.stroke_color
    } else {
        style.fill_color
    }
}

/// Whether `(x, y)` lies in one of the corner boxes of side `r` (both ends
/// inclusive) of the box `tl`..`br`; never when `r <= 0`.
pub open spec fn in_corner(tl: Point, br: Point, r: int, x: int, y: int) -> bool {
    r > 0 && (in_span(tl.x as int, tl.y as int, tl.x + r, tl.y + r, x, y) || in_span(
        br.x - r,
        tl.y as int,
        br.x as int,
        tl.y + r,
        x,
        y,
    ) || in_span(tl.x as int, br.y - r, tl.x + r, br.y as int, x, y) || in_span(
        br.x - r,
        br.y - r,
        br.x as int,
        br.y as int,
        x,
        y,
    ))
}

/// A row-major sweep over the columns `x_lo..=x_hi`, from row `y_lo` up to
/// (not including) the point `(end_x, end_y)`. Each point passed is
/// classified by `rule` and `style`, and only emitted where the clip region
/// admits it.
#[derive(Clone, Copy, Debug, PartialEq, Eq, Structural)]
pub struct Shape {
    pub rule: Rule,
    pub style: DrawStyle,
    pub clip: Option<Rectangle>,
    pub x_lo: i32,
    pub x_hi: i32,
    pub y_lo: i32,
    pub end_x: i32,
    pub end_y: i32,
}

/// A shape being swept, with its cursor at `(x, y)`.
#[derive(Clone, Copy, Debug)]
pub struct Sweep {
    pub shape: Shape,
    pub x: i32,
    pub y: i32,
}

/// What the sweep `s` emits at `(x, y)`, if anything.
pub open spec fn cell(s: Shape, x: int, y: int) -> Option<PixelColor> {
    if !clip_admits(s.clip, x, y) {
        None
    } else {
        match s.rule {
            Rule::Round { center, radius } => round_cell(
                center.x as int,
                center.y as int,
                radius as int,
                s.style,
                x,
                y,
            ),
            Rule::Boxy { tl, br, corner } => if in_corner(tl, br, corner as int, x, y) {
                None
            } else {
                box_cell(tl, br, s.style, x, y)
            },
        }
    }
}

/// `fb` with what the sweep emits at `(x, y)` plotted.
pub open spec fn paint_cell(fb: Seq<u32>, s: Shape, x: int, y: int) -> Seq<u32> {
    match cell(s, x, y) {
        Some(c) => put_pixel_spec(fb, x, y, c),
        None => fb,
    }
}

/// `fb` with an optional pixel plotted.
pub open spec fn paint_opt(fb: Seq<u32>, p: Option<Pixel>) -> Seq<u32> {
    match p {
        Some(px) => put_pixel_spec(fb, px.0.x as int, px.0.y as int, px.1),
        None => fb,
    }
}

/// `fb` with every point of the sweep plotted, in row-major order, from
/// `(x_lo, y_lo)` up to but not including `(x, y)`.
pub open spec fn painted(fb: Seq<u32>, s: Shape, x: int, y: int) -> Seq<u32>
    decreases y - s.y_lo, x - s.x_lo,
{
    if y < s.y_lo || x < s.x_lo || x > s.x_hi || (x == s.x_lo && y == s.y_lo) {
        fb
    } else if x > s.x_lo {
        paint_cell(painted(fb, s, x - 1, y), s, x - 1, y)
    } else {
        paint_cell(painted(fb, s, s.x_hi as int, y - 1), s, s.x_hi as int, y - 1)
    }
}

/// `fb` after the whole sweep.
pub open spec fn swept(fb: Seq<u32>, s: Shape) -> Seq<u32> {
    painted(fb, s, s.end_x as int, s.end_y as int)
}

/// Whether `(x1, y1)` comes strictly before `(x2, y2)` in row-major order.
pub open spec fn before(x1: int, y1: int, x2: int, y2: int) -> bool {
    y1 < y2 || (y1 == y2 && x1 < x2)
}

/// Stepping past the last column moves to the first column of the next row.
pub proof fn lemma_painted_step(fb: Seq<u32>, s: Shape, x: int, y: int)
    requires
        s.x_lo <= x <= s.x_hi,
        s.y_lo <= y,
    ensures
        x < s.x_hi ==> painted(fb, s, x + 1, y) == paint_cell(painted(fb, s, x, y), s, x, y),
        x == s.x_hi ==> painted(fb, s, s.x_lo as int, y + 1) == paint_cell(painted(fb, s, x, y), s, x, y),
{
}

/// The point that follows `(x, y)` in the sweep's row-major order.
pub open spec fn next_pos(s: Shape, x: int, y: int) -> (int, int) {
    if x < s.x_hi { (x + 1, y) } else { (s.x_lo as int, y + 1) }
}

/// The sweep emits nothing at any of its points from `(x0, y0)` (included)
/// up to `(x1, y1)` (excluded).
pub open spec fn none_between(s: Shape, x0: int, y0: int, x1: int, y1: int) -> bool {
    forall|px: int, py: int|
        s.x_lo <= px <= s.x_hi && s.y_lo <= py && !before(px, py, x0, y0) && before(px, py, x1, y1)
            ==> (#[trigger] cell(s, px, py)).is_none()
}

/// `s1` is `s0` run on to the next point it emits, which is `r`. Where `r` is
/// a pixel, its point is the first one at or after the old cursor that the
/// sweep emits, and the new cursor is the point after it; where `r` is `None`,
/// nothing is emitted from the old cursor to the end, and the cursor is there.
/// Either way, plotting `r` is the same as plotting every point passed.
pub open spec fn steps_to(s0: Sweep, s1: Sweep, r: Option<Pixel>) -> bool {
    &&& s1.wf()
    &&& s1.shape == s0.shape
    &&& r.is_none() ==> s1.at_end() && none_between(s0.shape, s0.x as int, s0.y as int, s1.x as int, s1.y as int)
    &&& r.is_some() ==> before(s0.x as int, s0.y as int, s1.x as int, s1.y as int)
    &&& r matches Some(px) ==> {
        &&& s0.shape.x_lo <= px.0.x <= s0.shape.x_hi
        &&& !before(px.0.x as int, px.0.y as int, s0.x as int, s0.y as int)
        &&& next_pos(s0.shape, px.0.x as int, px.0.y as int) == (s1.x as int, s1.y as int)
        &&& none_between(s0.shape, s0.x as int, s0.y as int, px.0.x as int, px.0.y as int)
        &&& cell(s0.shape, px.0.x as int, px.0.y as int) == Some(px.1)
    }
    &&& forall|fb: Seq<u32>|
        #[trigger] painted(fb, s0.shape, s1.x as int, s1.y as int) == paint_opt(
            painted(fb, s0.shape, s0.x as int, s0.y as int),
            r,
        )
}

/// Painting over points that emit nothing changes nothing.
pub proof fn lemma_painted_skip(fb: Seq<u32>, s: Shape, x0: int, y0: int, x: int, y: int)
    requires
        s.x_lo <= x0 <= s.x_hi,
        s.y_lo <= y0,
        s.x_lo <= x <= s.x_hi || (x == s.x_lo),
        !before(x, y, x0, y0),
        none_between(s, x0, y0, x, y),
    ensures
        painted(fb, s, x, y) == painted(fb, s, x0, y0),
    decreases y - s.y_lo, x - s.x_lo,
{
    if x == x0 && y == y0 {
    } else if x > s.x_lo {
        assert(cell(s, x - 1, y).is_none());
        lemma_painted_skip(fb, s, x0, y0, x - 1, y);
    } else {
        assert(cell(s, s.x_hi as int, y - 1).is_none());
        lemma_painted_skip(fb, s, x0, y0, s.x_hi as int, y - 1);
    }
}

impl Sweep {
    /// The extent is valid and the cursor lies between start and end.
    pub open spec fn wf(&self) -> bool {
        &&& -32768 <= self.shape.x_lo <= self.shape.x_hi <= 32767
        &&& -32768 <= self.shape.y_lo
        &&& self.shape.x_lo <= self.shape.end_x <= self.shape.x_hi
        &&& self.shape.end_y <= 32767 || (self.shape.end_y == 32768 && self.shape.end_x == self.shape.x_lo)
        &&& self.shape.x_lo <= self.x <= self.shape.x_hi
        &&& self.shape.y_lo <= self.y
        &&& self.y < self.shape.end_y || (self.y == self.shape.end_y && self.x <= self.shape.end_x)
    }

    /// Same shape and extent; only the cursor may differ.
    pub open spec fn same_shape(&self, o: Sweep) -> bool {
        self.shape == o.shape
    }

    pub open spec fn at_end(&self) -> bool {
        self.x == self.shape.end_x && self.y == self.shape.end_y
    }

    /// Moves the cursor one point on in row-major order.
    fn advance(&mut self)
        requires
            old(self).wf(),
            !old(self).at_end(),
        ensures
            final(self).wf(),
            final(self).same_shape(*old(self)),
            old(self).x < old(self).shape.x_hi ==> final(self).x == old(self).x + 1 && final(self).y
                == old(self).y,
            old(self).x == old(self).shape.x_hi ==> final(self).x == old(self).shape.x_lo && final(self).y
                == old(self).y + 1,
    {
        if self.x < self.shape.x_hi {
            self.x = self.x + 1;
        } else {
            self.x = self.shape.x_lo;
            self.y = self.y + 1;
        }
    }

    /// What the sweep emits at `(x, y)`.
    fn classify(&self, x: i32, y: i32) -> (r: Option<PixelColor>)
        requires
            -32768 <= x <= 32768,
            -32768 <= y <= 32768,
        ensures
            r == cell(self.shape, x as int, y as int),
    {
        let admitted = match self.shape.clip {
            None => true,
            Some(c) => c.tl.x as i32 <= x && x <= c.br.x as i32 && c.tl.y as i32 <= y && y
                <= c.br.y as i32,
        };
        if !admitted {
            return None;
        }
        let style = self.shape.style;
        match self.shape.rule {
            Rule::Round { center, radius } => {
                let dx = x as i64 - center.x as i64;
                let dy = y as i64 - center.y as i64;
                assert(dx * dx <= 0x1_0000_0000 && dy * dy <= 0x1_0000_0000 && dx * dx >= 0 && dy * dy >= 0) by (nonlinear_arith)
                    requires
                        -65536 <= dx <= 65536,
                        -65536 <= dy <= 65536,
                ;
                let len: i64 = dx * dx + dy * dy;
                let r = radius as i64;
                let inner: i64 = r - style.stroke_width as i64 + 1;
                assert(0 <= r * r <= 0x1_0000_0000 && 0 <= inner * inner <= 0x1_0000_0000) by (nonlinear_arith)
                    requires
                        -65536 <= r <= 65536,
                        -65536 <= inner <= 65536,
                ;
                if len > inner * inner - inner && len < r * r + inner && style.stroke_color.is_some() {
                    style.stroke_color
                } else if len <= r * r + 1 && style.fill_color.is_some() {
                    style.fill_color
                } else {
                    None
                }
            },
            Rule::Boxy { tl, br, corner } => {
                let c = corner as i32;
                let (l, t, r, b) = (tl.x as i32, tl.y as i32, br.x as i32, br.y as i32);
                if c > 0 && ((l <= x && x <= l + c && t <= y && y <= t + c) || (r - c <= x && x <= r
                    && t <= y && y <= t + c) || (l <= x && x <= l + c && b - c <= y && y <= b) || (r
                    - c <= x && x <= r && b - c <= y && y <= b)) {
                    return None;
                }
                let w = style.stroke_width as i32;
                let border = (t <= y && y < t + w) || (b - w < y && y <= b) || (l <= x && x < l + w)
                    || (r - w < x && x <= r);
                if border && style.stroke_color.is_some() {
                    style.stroke_color
                } else {
                    style.fill_color
                }
            },
        }
    }

    /// Runs the sweep on to the next point that it emits and returns it, or
    /// `None` once the end is reached. Plotting what it returns is the same as
    /// plotting every point that the cursor passed.
    pub fn next_pixel(&mut self) -> (r: Option<Pixel>)
        requires
            old(self).wf(),
        ensures
            steps_to(*old(self), *final(self), r),
    {
        let ghost s0 = *self;
        if self.shape.style.stroke_color.is_none() && self.shape.style.fill_color.is_none() {
            // a transparent shape emits nothing: skip to the end
            self.x = self.shape.end_x;
            self.y = self.shape.end_y;
            assert forall|fb: Seq<u32>|
                #[trigger] painted(fb, s0.shape, self.x as int, self.y as int) == painted(fb, s0.shape, s0.x as int, s0.y as int) by {
                lemma_painted_skip(fb, s0.shape, s0.x as int, s0.y as int, self.x as int, self.y as int);
            }
            return None;
        }
        while !(self.x == self.shape.end_x && self.y == self.shape.end_y)
            invariant
                self.wf(),
                s0 == *old(self),
                self.same_shape(s0),
                s0.y < self.y || (s0.y == self.y && s0.x <= self.x),
                none_between(s0.shape, s0.x as int, s0.y as int, self.x as int, self.y as int),
                forall|fb: Seq<u32>|
                    #[trigger] painted(fb, s0.shape, self.x as int, self.y as int) == painted(fb, s0.shape, s0.x as int, s0.y as int),
            decreases self.shape.end_y - self.y, self.shape.x_hi - self.x,
        {
            let px = self.x;
            let py = self.y;
            let c = self.classify(px, py);
            self.advance();
            assert forall|fb: Seq<u32>|
                #[trigger] painted(fb, s0.shape, self.x as int, self.y as int) == paint_cell(
                    painted(fb, s0.shape, px as int, py as int),
                    s0.shape,
                    px as int,
                    py as int,
                ) by {
                lemma_painted_step(fb, s0.shape, px as int, py as int);
            }
            if let Some(col) = c {
                let p = Pixel(Point { x: px as i16, y: py as i16 }, col);
                return Some(p);
            }
        }
        None
    }
}

/// Plots every point that the sweep emits from its cursor on.
pub fn draw_sweep(fb: &mut LcdFB, s: Sweep)
    requires
        s.wf(),
        s.x == s.shape.x_lo,
        s.y == s.shape.y_lo,
    ensures
        final(fb)@ == swept(old(fb)@, s.shape),
{
    let ghost fb0 = fb@;
    let mut cur = s;
    assert(painted(fb0, s.shape, s.x as int, s.y as int) == fb0);
    loop
        invariant
            cur.wf(),
            cur.same_shape(s),
            fb@ == painted(fb0, s.shape, cur.x as int, cur.y as int),
        ensures
            cur.at_end(),
            fb@ == painted(fb0, s.shape, cur.x as int, cur.y as int),
        decreases cur.shape.end_y - cur.y, cur.shape.x_hi - cur.x,
    {
        let ghost prev = cur;
        match cur.next_pixel() {
            Some(px) => {
                assert(painted(fb0, s.shape, cur.x as int, cur.y as int) == paint_opt(painted(fb0, s.shape, prev.x as int, prev.y as int), Some(px)));
                put_pixel(fb, px.0.x, px.0.y, px.1);
            },
            None => {
                break;
            },
        }
    }
}

} // verus!
