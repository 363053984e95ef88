use vstd::prelude::*;
use crate::api::{clip_admits, Circle, Line, PixelColor, Rectangle, RoundedRectangle};
use crate::bresenham::{lemma_walk_step, line_dx, line_dy, line_spec, line_walk, walk_ok};
use crate::fb::{
    dirty_word, mark_dirty, pixel_is_light, plot_mask, plot_pos, plot_row, plot_word, put_pixel_spec, row_dirty,
    xor_pixel_spec, DIRTY_BIT,
};
use crate::op::{
    abs_radius, circle_fits, circle_shape, corner_circle, quadrant_shape, rect_shape, rounded_rectangle_spec, rr_body_shape,
    rr_fits, Quadrant,
};
use crate::sweep::{before, cell, lemma_painted_skip, paint_cell, painted, round_cell, swept, Shape};

verus! {

/// Toggling the same pixel twice gives back its bit, unless the pixel is the
/// one whose bit is the row's dirty flag (column 336, sent to row 335).
pub proof fn lemma_xor_twice_restores(fb: Seq<u32>, x: int, y: int)
    requires
        fb.len() == 5896,
        -32768 <= x <= 32767,
        -32768 <= y <= 32767,
        x != 336,
    ensures
        pixel_is_light(xor_pixel_spec(xor_pixel_spec(fb, x, y), x, y), x, y) == pixel_is_light(fb, x, y),
{
    let w = plot_word(x, y);
    let d = dirty_word(x, y);
    let k = (plot_pos(x, y) % 32) as u32;
    let m = plot_mask(x, y);
    let a = fb[w];
    assert(k < 32);
    if w == d {
        assert(k != 16);
        assert(((((a ^ m) | DIRTY_BIT) ^ m) | DIRTY_BIT) & m == a & m) by (bit_vector)
            requires
                m == 1u32 << k,
                k < 32,
                k != 16,
                DIRTY_BIT == 0x1_0000u32,
        ;
    } else {
        assert(((a ^ m) ^ m) & m == a & m) by (bit_vector);
    }
}

/// Plotting the same color at the same place twice changes nothing after the
/// first time.
pub proof fn lemma_put_twice_idempotent(fb: Seq<u32>, x: int, y: int, color: PixelColor)
    requires
        fb.len() == 5896,
        -32768 <= x <= 32767,
        -32768 <= y <= 32767,
    ensures
        put_pixel_spec(put_pixel_spec(fb, x, y, color), x, y, color) == put_pixel_spec(fb, x, y, color),
{
    let w = plot_word(x, y);
    let d = dirty_word(x, y);
    let m = plot_mask(x, y);
    let once = put_pixel_spec(fb, x, y, color);
    let twice = put_pixel_spec(once, x, y, color);
    let a = fb[w];
    let b = fb[d];
    assert(((a | m) | m) == a | m && ((a & !m) & !m) == a & !m) by (bit_vector);
    assert(((b | DIRTY_BIT) | DIRTY_BIT) == b | DIRTY_BIT) by (bit_vector);
    assert((((a | m) | DIRTY_BIT) | m) | DIRTY_BIT == (a | m) | DIRTY_BIT) by (bit_vector);
    assert((((a & !m) | DIRTY_BIT) & !m) | DIRTY_BIT == (a & !m) | DIRTY_BIT) by (bit_vector);
    assert(twice =~= once);
}

/// Painting up to `(x, y)` leaves the buffer as it was where the clip region
/// refuses every point before it.
proof fn lemma_painted_unchanged(fb: Seq<u32>, s: Shape, x: int, y: int)
    requires
        forall|px: int, py: int|
            s.x_lo <= px <= s.x_hi && s.y_lo <= py && before(px, py, x, y) ==> !clip_admits(s.clip, px, py),
    ensures
        painted(fb, s, x, y) == fb,
    decreases y - s.y_lo, x - s.x_lo,
{
    if y < s.y_lo || x < s.x_lo || x > s.x_hi || (x == s.x_lo && y == s.y_lo) {
    } else if x > s.x_lo {
        lemma_painted_unchanged(fb, s, x - 1, y);
        assert(cell(s, x - 1, y).is_none());
    } else {
        lemma_painted_unchanged(fb, s, s.x_hi as int, y - 1);
        assert(cell(s, s.x_hi as int, y - 1).is_none());
    }
}

/// Whether the clip region lies wholly outside the box `x0..=x1` x `y0..=y1`.
pub open spec fn clip_disjoint(clip: Option<Rectangle>, x0: int, y0: int, x1: int, y1: int) -> bool {
    match clip {
        None => false,
        Some(c) => c.br.x < x0 || c.tl.x > x1 || c.br.y < y0 || c.tl.y > y1,
    }
}

/// A circle clipped to a region outside its bounding square writes nothing.
pub proof fn lemma_circle_clip_disjoint(fb: Seq<u32>, c: Circle, clip: Option<Rectangle>)
    requires
        circle_fits(c),
        clip_disjoint(
            clip,
            c.center.x - abs_radius(c),
            c.center.y - abs_radius(c),
            c.center.x + abs_radius(c),
            c.center.y + abs_radius(c),
        ),
    ensures
        swept(fb, circle_shape(c, clip)) == fb,
{
    let s = circle_shape(c, clip);
    lemma_painted_unchanged(fb, s, s.end_x as int, s.end_y as int);
}

/// A rectangle clipped to a region outside it writes nothing.
pub proof fn lemma_rectangle_clip_disjoint(fb: Seq<u32>, rect: Rectangle, clip: Option<Rectangle>)
    requires
        rect.tl.x <= rect.br.x,
        rect.tl.y <= rect.br.y,
        clip_disjoint(clip, rect.tl.x as int, rect.tl.y as int, rect.br.x as int, rect.br.y as int),
    ensures
        swept(fb, rect_shape(rect, clip)) == fb,
{
    let s = rect_shape(rect, clip);
    lemma_painted_unchanged(fb, s, s.end_x as int, s.end_y as int);
}

/// The last row that the sweep passes over.
pub open spec fn last_row(s: Shape) -> int {
    if s.end_x == s.x_lo { s.end_y - 1 } else { s.end_y as int }
}

/// Any sweep clipped to a region outside its extent writes nothing.
pub proof fn lemma_sweep_clip_disjoint(fb: Seq<u32>, s: Shape)
    requires
        clip_disjoint(s.clip, s.x_lo as int, s.y_lo as int, s.x_hi as int, last_row(s)),
    ensures
        swept(fb, s) == fb,
{
    lemma_painted_unchanged(fb, s, s.end_x as int, s.end_y as int);
}

/// No point at squared distance `(r + 1)^2` or more from the center of a
/// circle of radius `r >= 1` is in its stroke band or its disc.
proof fn lemma_round_cell_far(r: int, inner: int, len: int)
    requires
        r >= 1,
        len >= (r + 1) * (r + 1),
    ensures
        !(len > inner * inner - inner && len < r * r + inner),
        !(len <= r * r + 1),
{
    assert((r + 1) * (r + 1) == r * r + 2 * r + 1) by (nonlinear_arith);
    if len > inner * inner - inner && len < r * r + inner {
        assert(inner >= 2 * r + 2);
        assert(inner * (inner - 2) >= (2 * r + 2) * (2 * r)) by (nonlinear_arith)
            requires
                inner >= 2 * r + 2,
                r >= 1,
        ;
        assert((2 * r + 2) * (2 * r) > r * r) by (nonlinear_arith)
            requires
                r >= 1,
        ;
        assert(inner * (inner - 2) == inner * inner - 2 * inner) by (nonlinear_arith);
    }
}

/// A bottom corner's sweep emits nothing on the row below its circle, where
/// it ends.
proof fn lemma_bottom_row_empty(c: Circle, q: Quadrant, clip: Option<Rectangle>, px: int)
    requires
        c.radius >= 1,
        q == Quadrant::BottomLeft || q == Quadrant::BottomRight,
    ensures
        cell(quadrant_shape(c, q, clip), px, c.center.y + c.radius + 1).is_none(),
{
    let r = c.radius as int;
    let dx = px - c.center.x;
    let len = dx * dx + (r + 1) * (r + 1);
    assert(dx * dx >= 0) by (nonlinear_arith);
    lemma_round_cell_far(r, r - c.style.stroke_width + 1, len);
}

/// A rounded rectangle whose corner circles fit inside it, clipped to a region
/// outside its box, writes nothing.
pub proof fn lemma_rounded_clip_disjoint(fb: Seq<u32>, rr: RoundedRectangle, clip: Option<Rectangle>)
    requires
        rr_fits(rr),
        rr.border.tl.x <= rr.border.br.x,
        rr.border.tl.y <= rr.border.br.y,
        rr.border.tl.x + rr.radius <= rr.border.br.x,
        rr.border.tl.y + rr.radius + 1 <= rr.border.br.y,
        clip_disjoint(clip, rr.border.tl.x as int, rr.border.tl.y as int, rr.border.br.x as int, rr.border.br.y as int),
    ensures
        rounded_rectangle_spec(fb, rr, clip) == fb,
{
    let b = rr.border.br.y as int;
    lemma_sweep_clip_disjoint(fb, rr_body_shape(rr, clip));
    if rr.radius > 0 {
        lemma_sweep_clip_disjoint(fb, quadrant_shape(corner_circle(rr, Quadrant::TopLeft), Quadrant::TopLeft, clip));
        lemma_sweep_clip_disjoint(fb, quadrant_shape(corner_circle(rr, Quadrant::TopRight), Quadrant::TopRight, clip));
        let qs = seq![Quadrant::BottomLeft, Quadrant::BottomRight];
        assert forall|k: int| 0 <= k < 2 implies swept(fb, quadrant_shape(corner_circle(rr, #[trigger] qs[k]), qs[k], clip)) == fb by {
            let q = qs[k];
            let c = corner_circle(rr, q);
            let s = quadrant_shape(c, q, clip);
            assert(c.center.y + c.radius + 1 == b + 1);
            assert forall|px: int, py: int|
                s.x_lo <= px <= s.x_hi && s.y_lo <= py && !before(px, py, s.x_lo as int, s.y_lo as int) && before(
                    px,
                    py,
                    s.end_x as int,
                    s.end_y as int,
                ) implies (#[trigger] cell(s, px, py)).is_none() by {
                if py == b + 1 {
                    lemma_bottom_row_empty(c, q, clip, px);
                }
            }
            lemma_painted_skip(fb, s, s.x_lo as int, s.y_lo as int, s.end_x as int, s.end_y as int);
        }
        assert(qs[0] == Quadrant::BottomLeft && qs[1] == Quadrant::BottomRight);
    }
}

pub open spec fn min(a: int, b: int) -> int {
    if a <= b { a } else { b }
}

pub open spec fn max(a: int, b: int) -> int {
    if a <= b { b } else { a }
}

/// The walk, from any of its states, writes nothing where the clip region
/// lies outside the segment's bounding box.
proof fn lemma_walk_unchanged(
    fb: Seq<u32>,
    l: Line,
    color: PixelColor,
    clip: Option<Rectangle>,
    xor: bool,
    x: int,
    y: int,
    err: int,
    n: nat,
    i: int,
    j: int,
)
    requires
        walk_ok(l, x, y, err, i, j),
        clip_disjoint(
            clip,
            min(l.start.x as int, l.end.x as int),
            min(l.start.y as int, l.end.y as int),
            max(l.start.x as int, l.end.x as int),
            max(l.start.y as int, l.end.y as int),
        ),
    ensures
        line_walk(fb, l, color, clip, xor, x, y, err, n) == fb,
    decreases n,
{
    assert(!clip_admits(clip, x, y));
    if n > 0 && !(x == l.end.x && y == l.end.y) {
        lemma_walk_step(l, x, y, err, i, j);
        let (dx, dy) = (line_dx(l), line_dy(l));
        let e2 = 2 * err;
        let x1 = if e2 >= dy { x + crate::bresenham::line_sx(l) } else { x };
        let err1 = if e2 >= dy { err + dy } else { err };
        let y1 = if e2 <= dx { y + crate::bresenham::line_sy(l) } else { y };
        let err2 = if e2 <= dx { err1 + dx } else { err1 };
        let i1 = if e2 >= dy { i + 1 } else { i };
        let j1 = if e2 <= dx { j + 1 } else { j };
        lemma_walk_unchanged(fb, l, color, clip, xor, x1, y1, err2, (n - 1) as nat, i1, j1);
    }
}

/// A line clipped to a region outside the bounding box of its end points
/// writes nothing.
pub proof fn lemma_line_clip_disjoint(fb: Seq<u32>, l: Line, clip: Option<Rectangle>, xor: bool)
    requires
        clip_disjoint(
            clip,
            min(l.start.x as int, l.end.x as int),
            min(l.start.y as int, l.end.y as int),
            max(l.start.x as int, l.end.x as int),
            max(l.start.y as int, l.end.y as int),
        ),
    ensures
        line_spec(fb, l, clip, xor) == fb,
{
    if let Some(c) = l.style.stroke_color {
        let n = (line_dx(l) - line_dy(l) + 1) as nat;
        lemma_walk_unchanged(fb, l, c, clip, xor, l.start.x as int, l.start.y as int, line_dx(l) + line_dy(l), n, 0, 0);
    }
}

/// A circle without stroke emits its fill exactly at the offsets whose squared
/// distance from the center is at most `radius * radius + 1`.
pub proof fn lemma_circle_fill_only(c: Circle, clip: Option<Rectangle>, f: PixelColor, x: int, y: int)
    requires
        c.style.stroke_color.is_none(),
        c.style.fill_color == Some(f),
        circle_fits(c),
        clip_admits(clip, x, y),
    ensures
        cell(circle_shape(c, clip), x, y) == if (x - c.center.x) * (x - c.center.x) + (y - c.center.y) * (y
            - c.center.y) <= abs_radius(c) * abs_radius(c) + 1 {
            Some(f)
        } else {
            None
        },
{
    assert(abs_radius(c) <= 32767);
    assert(cell(circle_shape(c, clip), x, y) == round_cell(
        c.center.x as int,
        c.center.y as int,
        abs_radius(c),
        c.style,
        x,
        y,
    ));
}

/// A rounded rectangle with corner radius zero draws exactly what the plain
/// rectangle of the same bounds and style draws.
pub proof fn lemma_rounded_radius_zero(fb: Seq<u32>, rr: RoundedRectangle, clip: Option<Rectangle>)
    requires
        rr.radius == 0,
    ensures
        rounded_rectangle_spec(fb, rr, clip) == swept(fb, rect_shape(rr.border, clip)),
{
    assert(rr_body_shape(rr, clip) == rect_shape(rr.border, clip));
}

/// Bit `p` of the buffer, counted from bit 0 of word 0.
pub open spec fn bit_at(fb: Seq<u32>, p: int) -> bool {
    fb[p / 32] & (1u32 << ((p % 32) as u32)) != 0
}

/// Setting or clearing one bit of a word keeps its other bits.
proof fn lemma_other_bit(a: u32, k: u32, j: u32)
    requires
        k < 32,
        j < 32,
        k != j,
    ensures
        (a | (1u32 << j)) & (1u32 << k) == a & (1u32 << k),
        (a & !(1u32 << j)) & (1u32 << k) == a & (1u32 << k),
        (a ^ (1u32 << j)) & (1u32 << k) == a & (1u32 << k),
{
    assert((a | (1u32 << j)) & (1u32 << k) == a & (1u32 << k)) by (bit_vector)
        requires k < 32, j < 32, k != j;
    assert((a & !(1u32 << j)) & (1u32 << k) == a & (1u32 << k)) by (bit_vector)
        requires k < 32, j < 32, k != j;
    assert((a ^ (1u32 << j)) & (1u32 << k) == a & (1u32 << k)) by (bit_vector)
        requires k < 32, j < 32, k != j;
}

/// What one plot does to the bits of the buffer: its own bit takes the color
/// (unless it is the dirty flag itself), the dirty flag of its row is set,
/// and every other bit stays.
proof fn lemma_put_bits(fb: Seq<u32>, u: int, v: int, c: PixelColor, p: int)
    requires
        fb.len() == 5896,
        0 <= u < 336,
        0 <= v < 536,
        0 <= p < 5896 * 32,
    ensures
        put_pixel_spec(fb, u, v, c).len() == 5896,
        p != plot_pos(u, v) && p != v * 352 + 336 ==> bit_at(put_pixel_spec(fb, u, v, c), p) == bit_at(fb, p),
        bit_at(put_pixel_spec(fb, u, v, c), v * 352 + 336),
        p == plot_pos(u, v) ==> bit_at(put_pixel_spec(fb, u, v, c), p) == (c == PixelColor::Light),
{
    let w = plot_word(u, v);
    let d = dirty_word(u, v);
    let m = plot_mask(u, v);
    let kw = (plot_pos(u, v) % 32) as u32;
    let kp = (p % 32) as u32;
    let wp = p / 32;
    let a = fb[w];
    let v1 = if c == PixelColor::Light { a | m } else { a & !m };
    let fb1 = fb.update(w, v1);
    let out = put_pixel_spec(fb, u, v, c);
    assert(out == mark_dirty(fb1, u, v));
    assert(plot_row(u, v) == v);
    assert(d == v * 11 + 10);
    assert(kw < 32 && (w == d ==> kw < 16));
    assert(0 <= w < 5896 && 0 <= d < 5896);
    assert((v * 352 + 336) / 32 == d && (v * 352 + 336) % 32 == 16);
    let b = fb1[d];
    assert((b | 0x1_0000u32) & (1u32 << 16u32) != 0) by (bit_vector);
    if p != plot_pos(u, v) && p != v * 352 + 336 {
        if wp == w {
            assert(kp != kw);
            lemma_other_bit(a, kp, kw);
        }
        if wp == d {
            assert(kp != 16);
            let e = fb1[d];
            assert((e | 0x1_0000u32) & (1u32 << kp) == e & (1u32 << kp)) by (bit_vector)
                requires kp < 32, kp != 16;
        }
    }
    if p == plot_pos(u, v) {
        assert((a | m) & m != 0 && (a & !m) & m == 0) by (bit_vector)
            requires m == 1u32 << kw, kw < 32;
        if w == d {
            assert((v1 | 0x1_0000u32) & m == v1 & m) by (bit_vector)
                requires m == 1u32 << kw, kw < 16;
        }
    }
}

/// Geometry under which a point of a filled rectangle keeps its plot: the
/// rectangle lies on the canvas and `(x, y)` strictly inside it.
pub open spec fn interior_on_canvas(rect: Rectangle, x: int, y: int) -> bool {
    &&& 0 <= rect.tl.x && rect.br.x < 336
    &&& 0 <= rect.tl.y && rect.br.y < 536
    &&& rect.tl.x < x < rect.br.x
    &&& rect.tl.y < y < rect.br.y
}

/// Once the sweep of a filled, unstroked rectangle has passed `(x, y)`, that
/// pixel holds the fill and its row is flagged dirty.
proof fn lemma_filled_after(fb: Seq<u32>, rect: Rectangle, f: PixelColor, x: int, y: int, qx: int, qy: int)
    requires
        fb.len() == 5896,
        rect.style.stroke_color.is_none(),
        rect.style.fill_color == Some(f),
        interior_on_canvas(rect, x, y),
        rect_shape(rect, None).x_lo <= qx <= rect_shape(rect, None).x_hi,
        qy < rect.br.y + 1 || (qy == rect.br.y + 1 && qx == rect.tl.x),
        before(x, y, qx, qy),
    ensures
        painted(fb, rect_shape(rect, None), qx, qy).len() == 5896,
        bit_at(painted(fb, rect_shape(rect, None), qx, qy), plot_pos(x, y)) == (f == PixelColor::Light),
        bit_at(painted(fb, rect_shape(rect, None), qx, qy), y * 352 + 336),
    decreases qy - rect.tl.y, qx - rect.tl.x,
{
    let s = rect_shape(rect, None);
    let (px, py) = if qx > s.x_lo { (qx - 1, qy) } else { (s.x_hi as int, qy - 1) };
    assert(painted(fb, s, qx, qy) == paint_cell(painted(fb, s, px, py), s, px, py));
    lemma_painted_len(fb, s, px, py);
    let prev = painted(fb, s, px, py);
    assert(cell(s, px, py) == Some(f));
    assert(plot_row(x, y) == y);
    if px == x && py == y {
        lemma_put_bits(prev, x, y, f, plot_pos(x, y));
        lemma_put_bits(prev, x, y, f, y * 352 + 336);
    } else {
        lemma_filled_after(fb, rect, f, x, y, px, py);
        assert(plot_row(px, py) == py);
        lemma_put_bits(prev, px, py, f, plot_pos(x, y));
        lemma_put_bits(prev, px, py, f, y * 352 + 336);
    }
}

/// Painting keeps the buffer's length.
proof fn lemma_painted_len(fb: Seq<u32>, s: Shape, x: int, y: int)
    requires
        fb.len() == 5896,
        forall|px: int, py: int|
            s.x_lo <= px <= s.x_hi && s.y_lo <= py && before(px, py, x, y) ==> 0 <= px < 336 && 0 <= py < 536,
    ensures
        painted(fb, s, x, y).len() == 5896,
    decreases y - s.y_lo, x - s.x_lo,
{
    if y < s.y_lo || x < s.x_lo || x > s.x_hi || (x == s.x_lo && y == s.y_lo) {
    } else {
        let (px, py) = if x > s.x_lo { (x - 1, y) } else { (s.x_hi as int, y - 1) };
        assert forall|a: int, b: int|
            s.x_lo <= a <= s.x_hi && s.y_lo <= b && before(a, b, px, py) implies 0 <= a < 336 && 0 <= b < 536 by {
            assert(before(a, b, x, y));
        }
        lemma_painted_len(fb, s, px, py);
        assert(before(px, py, x, y));
        if let Some(c) = cell(s, px, py) {
            lemma_put_bits(painted(fb, s, px, py), px, py, c, 0);
        }
    }
}

/// Every point strictly inside a filled rectangle without stroke is emitted in
/// the fill color; once the rectangle is drawn the pixel holds it and its row
/// is flagged dirty. Stated for rectangles on the canvas: plots off the canvas
/// are sent to other rows and may land on any bit.
pub proof fn lemma_filled_rectangle_interior(fb: Seq<u32>, rect: Rectangle, f: PixelColor, x: int, y: int)
    requires
        fb.len() == 5896,
        rect.style.stroke_color.is_none(),
        rect.style.fill_color == Some(f),
        interior_on_canvas(rect, x, y),
    ensures
        cell(rect_shape(rect, None), x, y) == Some(f),
        pixel_is_light(swept(fb, rect_shape(rect, None)), x, y) == (f == PixelColor::Light),
        row_dirty(swept(fb, rect_shape(rect, None)), y),
{
    let s = rect_shape(rect, None);
    lemma_filled_after(fb, rect, f, x, y, s.end_x as int, s.end_y as int);
    assert(plot_row(x, y) == y);
    assert((y * 352 + 336) / 32 == y * 11 + 10 && (y * 352 + 336) % 32 == 16);
    assert((1u32 << 16u32) == 0x1_0000u32) by (bit_vector);
}

/// A plot anywhere (on the canvas or not) sets or clears the bit of a pixel
/// on the canvas only when it addresses that very bit; else the bit stays.
proof fn lemma_put_pixel_bit(fb: Seq<u32>, u: int, v: int, c: PixelColor, x: int, y: int)
    requires
        fb.len() == 5896,
        -32768 <= u <= 32767,
        -32768 <= v <= 32767,
        0 <= x < 336,
        0 <= y < 536,
    ensures
        put_pixel_spec(fb, u, v, c).len() == 5896,
        bit_at(put_pixel_spec(fb, u, v, c), plot_pos(x, y)) == if plot_pos(u, v) == plot_pos(x, y) {
            c == PixelColor::Light
        } else {
            bit_at(fb, plot_pos(x, y))
        },
{
    let p = plot_pos(x, y);
    let w = plot_word(u, v);
    let d = dirty_word(u, v);
    let m = plot_mask(u, v);
    let kw = (plot_pos(u, v) % 32) as u32;
    let kp = (p % 32) as u32;
    let a = fb[w];
    let v1 = if c == PixelColor::Light { a | m } else { a & !m };
    let fb1 = fb.update(w, v1);
    assert(put_pixel_spec(fb, u, v, c) == mark_dirty(fb1, u, v));
    assert(0 <= plot_row(u, v) < 536);
    assert(0 <= w < 5896 && 0 <= d < 5896);
    assert(plot_row(x, y) == y);
    assert(p / 32 == y * 11 + x / 32 && p % 32 == x % 32);
    assert(kw < 32 && kp < 32);
    assert(p / 32 == d ==> kp < 16);
    if plot_pos(u, v) == p {
        assert((a | m) & m != 0 && (a & !m) & m == 0) by (bit_vector)
            requires m == 1u32 << kw, kw < 32;
        if w == d {
            assert((v1 | 0x1_0000u32) & m == v1 & m) by (bit_vector)
                requires m == 1u32 << kw, kw < 16;
        }
    } else {
        if p / 32 == w {
            assert(kp != kw);
            lemma_other_bit(a, kp, kw);
        }
        if p / 32 == d {
            let e = fb1[d];
            assert((e | 0x1_0000u32) & (1u32 << kp) == e & (1u32 << kp)) by (bit_vector)
                requires kp < 32, kp != 16;
        }
    }
}

/// Once the sweep of a fill-only rectangle has passed `(x, y)` (a pixel on
/// the canvas), that pixel holds the fill.
proof fn lemma_fill_pixel_after(fb: Seq<u32>, rect: Rectangle, f: PixelColor, x: int, y: int, qx: int, qy: int)
    requires
        fb.len() == 5896,
        rect.style.stroke_color.is_none(),
        rect.style.fill_color == Some(f),
        rect.tl.x < x < rect.br.x,
        rect.tl.y < y < rect.br.y,
        0 <= x < 336,
        0 <= y < 536,
        rect_shape(rect, None).x_lo <= qx <= rect_shape(rect, None).x_hi,
        qy < rect.br.y + 1 || (qy == rect.br.y + 1 && qx == rect.tl.x),
        before(x, y, qx, qy),
    ensures
        painted(fb, rect_shape(rect, None), qx, qy).len() == 5896,
        bit_at(painted(fb, rect_shape(rect, None), qx, qy), plot_pos(x, y)) == (f == PixelColor::Light),
    decreases qy - rect.tl.y, qx - rect.tl.x,
{
    let s = rect_shape(rect, None);
    let (px, py) = if qx > s.x_lo { (qx - 1, qy) } else { (s.x_hi as int, qy - 1) };
    assert(painted(fb, s, qx, qy) == paint_cell(painted(fb, s, px, py), s, px, py));
    assert(cell(s, px, py) == Some(f));
    if px == x && py == y {
        lemma_fill_len(fb, rect, f, px, py);
        lemma_put_pixel_bit(painted(fb, s, px, py), x, y, f, x, y);
    } else {
        lemma_fill_pixel_after(fb, rect, f, x, y, px, py);
        lemma_put_pixel_bit(painted(fb, s, px, py), px, py, f, x, y);
    }
}

/// The sweep of a fill-only rectangle keeps the buffer's length.
proof fn lemma_fill_len(fb: Seq<u32>, rect: Rectangle, f: PixelColor, qx: int, qy: int)
    requires
        fb.len() == 5896,
        rect.style.stroke_color.is_none(),
        rect.style.fill_color == Some(f),
        rect_shape(rect, None).x_lo <= qx <= rect_shape(rect, None).x_hi,
        qy < rect.br.y + 1 || (qy == rect.br.y + 1 && qx == rect.tl.x),
    ensures
        painted(fb, rect_shape(rect, None), qx, qy).len() == 5896,
    decreases qy - rect.tl.y, qx - rect.tl.x,
{
    let s = rect_shape(rect, None);
    if qy < s.y_lo || (qx == s.x_lo && qy == s.y_lo) {
    } else {
        let (px, py) = if qx > s.x_lo { (qx - 1, qy) } else { (s.x_hi as int, qy - 1) };
        lemma_fill_len(fb, rect, f, px, py);
        lemma_put_pixel_bit(painted(fb, s, px, py), px, py, f, 0, 0);
    }
}

/// Every pixel on the canvas strictly inside a rectangle drawn with a fill
/// and no stroke holds the fill afterwards, wherever the rectangle lies.
pub proof fn lemma_filled_rectangle_pixel(fb: Seq<u32>, rect: Rectangle, f: PixelColor, x: int, y: int)
    requires
        fb.len() == 5896,
        rect.style.stroke_color.is_none(),
        rect.style.fill_color == Some(f),
        rect.tl.x < x < rect.br.x,
        rect.tl.y < y < rect.br.y,
        0 <= x < 336,
        0 <= y < 536,
    ensures
        pixel_is_light(swept(fb, rect_shape(rect, None)), x, y) == (f == PixelColor::Light),
{
    let s = rect_shape(rect, None);
    lemma_fill_pixel_after(fb, rect, f, x, y, s.end_x as int, s.end_y as int);
    assert(plot_row(x, y) == y);
}

} // verus!
