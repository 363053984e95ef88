use vstd::prelude::*;
use crate::api::{clip_admits, Line, PixelColor, Point, Rectangle};
use crate::fb::{put_pixel, put_pixel_spec, xor_pixel, xor_pixel_spec, LcdFB, HEIGHT, WIDTH};

verus! {

/// `fb` after the line's step at `(x, y)`: a point on the canvas that the
/// clip region admits is plotted in `color`, or toggled when `xor` is set.
pub open spec fn line_plot(fb: Seq<u32>, x: int, y: int, color: PixelColor, clip: Option<Rectangle>, xor: bool) -> Seq<u32> {
    if 0 <= x < 336 && 0 <= y < 536 && clip_admits(clip, x, y) {
        if xor { xor_pixel_spec(fb, x, y) } else { put_pixel_spec(fb, x, y, color) }
    } else {
        fb
    }
}

pub open spec fn abs(v: int) -> int {
    if v < 0 { -v } else { v }
}

/// `|end.x - start.x|`.
pub open spec fn line_dx(l: Line) -> int {
    abs(l.end.x - l.start.x)
}

/// `-|end.y - start.y|`.
pub open spec fn line_dy(l: Line) -> int {
    -abs(l.end.y - l.start.y)
}

pub open spec fn line_sx(l: Line) -> int {
    if l.start.x < l.end.x { 1 } else { -1 }
}

pub open spec fn line_sy(l: Line) -> int {
    if l.start.y < l.end.y { 1 } else { -1 }
}

/// The Bresenham walk from `(x, y)` with error term `err`, taking at most
/// `n` points: each point is plotted, and the walk stops on the end point.
pub open spec fn line_walk(
    fb: Seq<u32>,
    l: Line,
    color: PixelColor,
    clip: Option<Rectangle>,
    xor: bool,
    x: int,
    y: int,
    err: int,
    n: nat,
) -> Seq<u32>
    decreases n,
{
    if n == 0 {
        fb
    } else {
        let fb1 = line_plot(fb, x, y, color, clip, xor);
        if x == l.end.x && y == l.end.y {
            fb1
        } else {
            let (dx, dy) = (line_dx(l), line_dy(l));
            let e2 = 2 * err;
            let x1 = if e2 >= dy { x + line_sx(l) } else { x };
            let err1 = if e2 >= dy { err + dy } else { err };
            let y1 = if e2 <= dx { y + line_sy(l) } else { y };
            let err2 = if e2 <= dx { err1 + dx } else { err1 };
            line_walk(fb1, l, color, clip, xor, x1, y1, err2, (n - 1) as nat)
        }
    }
}

/// The buffer after drawing the line: nothing without a stroke color, else
/// the walk from `start` to `end`, which takes `|dx| + |dy| + 1` points at most.
pub open spec fn line_spec(fb: Seq<u32>, l: Line, clip: Option<Rectangle>, xor: bool) -> Seq<u32> {
    match l.style.stroke_color {
        None => fb,
        Some(c) => line_walk(
            fb,
            l,
            c,
            clip,
            xor,
            l.start.x as int,
            l.start.y as int,
            line_dx(l) + line_dy(l),
            (line_dx(l) - line_dy(l) + 1) as nat,
        ),
    }
}

proof fn lemma_mul_le(p: int, q: int, m: int)
    requires
        0 <= p <= q,
        0 <= m,
    ensures
        p * m <= q * m,
        0 <= p * m,
{
    assert(p * m <= q * m && 0 <= p * m) by (nonlinear_arith)
        requires
            0 <= p <= q,
            0 <= m,
    ;
}

/// The error term of the walk after `i` steps along x and `j` along y is
/// `(j + 1) * a - (i + 1) * b`: it stays small, and no step passes the end.
proof fn lemma_walk_facts(a: int, b: int, i: int, j: int, err: int)
    requires
        0 <= a <= 65535,
        0 <= b <= 65535,
        0 <= i <= a,
        0 <= j <= b,
        i < a || j < b,
        err == (j + 1) * a - (i + 1) * b,
    ensures
        -0x2_0000_0000 <= err <= 0x2_0000_0000,
        i == a ==> 2 * err < -b,
        j == b ==> 2 * err > a,
        (i + 2) * b == (i + 1) * b + b,
        (j + 2) * a == (j + 1) * a + a,
{
    lemma_mul_le(j + 1, b + 1, a);
    lemma_mul_le(i + 1, a + 1, b);
    lemma_mul_le(b + 1, 65536, a);
    lemma_mul_le(a + 1, 65536, b);
    assert((a + 1) * b == a * b + b && (b + 1) * a == a * b + a && b * a == a * b) by (nonlinear_arith);
    assert((i + 2) * b == (i + 1) * b + b) by (nonlinear_arith);
    assert((j + 2) * a == (j + 1) * a + a) by (nonlinear_arith);
    if i == a {
        lemma_mul_le(j + 1, b, a);
    }
    if j == b {
        lemma_mul_le(i + 1, a, b);
    }
}

/// The state of the walk after `i` steps along x and `j` along y.
pub open spec fn walk_ok(l: Line, x: int, y: int, err: int, i: int, j: int) -> bool {
    let (a, b) = (line_dx(l), -line_dy(l));
    &&& 0 <= i <= a
    &&& 0 <= j <= b
    &&& x == if line_sx(l) == 1 { l.start.x + i } else { l.start.x - i }
    &&& y == if line_sy(l) == 1 { l.start.y + j } else { l.start.y - j }
    &&& err == (j + 1) * a - (i + 1) * b
}

/// One step of the walk short of the end keeps it on the segment and moves
/// it on along at least one axis.
pub proof fn lemma_walk_step(l: Line, x: int, y: int, err: int, i: int, j: int)
    requires
        walk_ok(l, x, y, err, i, j),
        !(x == l.end.x && y == l.end.y),
    ensures
        ({
            let (dx, dy) = (line_dx(l), line_dy(l));
            let e2 = 2 * err;
            let x1 = if e2 >= dy { x + line_sx(l) } else { x };
            let err1 = if e2 >= dy { err + dy } else { err };
            let y1 = if e2 <= dx { y + line_sy(l) } else { y };
            let err2 = if e2 <= dx { err1 + dx } else { err1 };
            let i1 = if e2 >= dy { i + 1 } else { i };
            let j1 = if e2 <= dx { j + 1 } else { j };
            walk_ok(l, x1, y1, err2, i1, j1) && i1 + j1 > i + j
        }),
{
    lemma_walk_facts(line_dx(l), -line_dy(l), i, j, err);
}

/// Draws the line from `start` to `end`, both included, with an integer
/// Bresenham walk in the stroke color; `xor` toggles the points instead.
/// Without a stroke color nothing is drawn.
pub fn line(fb: &mut LcdFB, l: Line, clip: Option<Rectangle>, xor: bool)
    ensures
        final(fb)@ == line_spec(old(fb)@, l, clip, xor),
{
    let color = match l.style.stroke_color {
        Some(c) => c,
        None => {
            return;
        },
    };
    let ghost fb0 = fb@;
    let mut x0: i32 = l.start.x as i32;
    let mut y0: i32 = l.start.y as i32;
    let x1: i32 = l.end.x as i32;
    let y1: i32 = l.end.y as i32;
    let dx: i64 = if x1 >= x0 { (x1 - x0) as i64 } else { (x0 - x1) as i64 };
    let sx: i32 = if x0 < x1 { 1 } else { -1 };
    let dy: i64 = if y1 >= y0 { -((y1 - y0) as i64) } else { -((y0 - y1) as i64) };
    let sy: i32 = if y0 < y1 { 1 } else { -1 };
    let mut err: i64 = dx + dy;
    let ghost a = dx as int;
    let ghost b = -dy as int;
    let ghost mut i: int = 0;
    let ghost mut j: int = 0;
    let ghost mut n: nat = (a + b + 1) as nat;
    assert(a == line_dx(l) && -b == line_dy(l));
    loop
        invariant_except_break
            line_spec(fb0, l, clip, xor) == line_walk(fb@, l, color, clip, xor, x0 as int, y0 as int, err as int, n),
        invariant
            a == line_dx(l),
            -b == line_dy(l),
            dx == a,
            dy == -b,
            0 <= a <= 65535,
            0 <= b <= 65535,
            sx == line_sx(l),
            sy == line_sy(l),
            x1 == l.end.x,
            y1 == l.end.y,
            l.style.stroke_color == Some(color),
            0 <= i <= a,
            0 <= j <= b,
            x0 == if sx == 1 { l.start.x + i } else { l.start.x - i },
            y0 == if sy == 1 { l.start.y + j } else { l.start.y - j },
            x1 == if sx == 1 { l.start.x + a } else { l.start.x - a },
            y1 == if sy == 1 { l.start.y + b } else { l.start.y - b },
            err == (j + 1) * a - (i + 1) * b,
            n >= a + b + 1 - i - j,
        ensures
            line_spec(fb0, l, clip, xor) == fb@,
        decreases a + b - i - j,
    {
        let ghost fb_before = fb@;
        if x0 >= 0 && y0 >= 0 && x0 < WIDTH as i32 && y0 < HEIGHT as i32 {
            let admitted = match clip {
                None => true,
                Some(c) => c.intersects_point(Point::new(x0 as i16, y0 as i16)),
            };
            if admitted {
                if !xor {
                    put_pixel(fb, x0 as i16, y0 as i16, color);
                } else {
                    xor_pixel(fb, x0 as i16, y0 as i16);
                }
            }
        }
        assert(fb@ == line_plot(fb_before, x0 as int, y0 as int, color, clip, xor));
        if x0 == x1 && y0 == y1 {
            break;
        }
        proof {
            lemma_walk_facts(a, b, i, j, err as int);
        }
        let e2: i64 = 2 * err;
        if e2 >= dy {
            err = err + dy;
            x0 = x0 + sx;
            proof {
                assert((i + 2) * b == (i + 1) * b + b) by (nonlinear_arith);
                i = i + 1;
            }
        }
        if e2 <= dx {
            err = err + dx;
            y0 = y0 + sy;
            proof {
                assert((j + 2) * a == (j + 1) * a + a) by (nonlinear_arith);
                j = j + 1;
            }
        }
        proof {
            n = (n - 1) as nat;
        }
    }
}

} // verus!
