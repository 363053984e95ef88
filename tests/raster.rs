use graphics_server::api::{Circle, DrawStyle, Line, PixelColor, Point, Rectangle, RoundedRectangle};
use graphics_server::fb::{put_pixel, xor_pixel, LcdFB, LCD_FRAME_BUF_SIZE};
use graphics_server::bresenham;
use graphics_server::op::{
    circle, quadrant, rectangle, rounded_rectangle, CircleIterator, Quadrant, QuadrantIterator,
    RectangleIterator, RoundedRectangleIterator,
};

fn blank() -> LcdFB {
    [0u32; LCD_FRAME_BUF_SIZE]
}

fn all_light() -> LcdFB {
    [0xFFFF_FFFFu32; LCD_FRAME_BUF_SIZE]
}

fn light(fb: &LcdFB, x: usize, y: usize) -> bool {
    let pos = y * 352 + x;
    fb[pos / 32] & (1 << (pos % 32)) != 0
}

fn dirty(fb: &LcdFB, row: usize) -> bool {
    fb[row * 11 + 10] & 0x1_0000 != 0
}

fn style(fill: Option<PixelColor>, stroke: Option<PixelColor>, width: i16) -> DrawStyle {
    DrawStyle::new(fill, stroke, width)
}

fn lit_points(fb: &LcdFB) -> Vec<(usize, usize)> {
    let mut v = Vec::new();
    for y in 0..536 {
        for x in 0..336 {
            if light(fb, x, y) {
                v.push((x, y));
            }
        }
    }
    v
}

#[test]
fn put_pixel_light_sets_bit_and_dirty_flag() {
    let mut fb = blank();
    put_pixel(&mut fb, 5, 7, PixelColor::Light);
    assert!(light(&fb, 5, 7));
    assert!(dirty(&fb, 7));
    assert_eq!(fb[7 * 11], 1 << 5);
    assert_eq!(lit_points(&fb), vec![(5, 7)]);
}

#[test]
fn put_pixel_dark_clears_bit() {
    let mut fb = all_light();
    put_pixel(&mut fb, 40, 3, PixelColor::Dark);
    assert!(!light(&fb, 40, 3));
    assert!(light(&fb, 41, 3));
    assert_eq!(fb[3 * 11 + 1], !(1u32 << 8));
}

#[test]
fn put_pixel_clamps_rows_to_last_line() {
    let mut fb = blank();
    put_pixel(&mut fb, 2, 600, PixelColor::Light);
    assert!(light(&fb, 2, 535));
    assert!(dirty(&fb, 535));
    let mut fb2 = blank();
    put_pixel(&mut fb2, 3, -1, PixelColor::Light);
    assert!(light(&fb2, 3, 535));
}

#[test]
fn put_pixel_column_out_of_range_goes_to_row_335() {
    let mut fb = blank();
    put_pixel(&mut fb, 340, 10, PixelColor::Light);
    assert!(!dirty(&fb, 10));
    assert!(dirty(&fb, 335));
    let pos = 335 * 352 + 340;
    assert_ne!(fb[pos / 32] & (1 << (pos % 32)), 0);
}

#[test]
fn xor_pixel_twice_restores_bit() {
    let mut fb = blank();
    xor_pixel(&mut fb, 9, 9);
    assert!(light(&fb, 9, 9));
    assert!(dirty(&fb, 9));
    xor_pixel(&mut fb, 9, 9);
    assert!(!light(&fb, 9, 9));
    let mut fb2 = all_light();
    xor_pixel(&mut fb2, 100, 200);
    xor_pixel(&mut fb2, 100, 200);
    assert!(light(&fb2, 100, 200));
}

#[test]
fn put_pixel_twice_is_idempotent() {
    let mut once = blank();
    put_pixel(&mut once, 12, 34, PixelColor::Light);
    let mut twice = once;
    put_pixel(&mut twice, 12, 34, PixelColor::Light);
    assert_eq!(once.to_vec(), twice.to_vec());
    let mut d1 = all_light();
    put_pixel(&mut d1, 12, 34, PixelColor::Dark);
    let mut d2 = d1;
    put_pixel(&mut d2, 12, 34, PixelColor::Dark);
    assert_eq!(d1.to_vec(), d2.to_vec());
}

fn stroke_line(x0: i16, y0: i16, x1: i16, y1: i16) -> Line {
    Line::new_with_style(Point::new(x0, y0), Point::new(x1, y1), style(None, Some(PixelColor::Light), 1))
}

#[test]
fn line_horizontal_emits_six_points_either_way() {
    let mut fb = blank();
    bresenham::line(&mut fb, stroke_line(0, 0, 5, 0), None, false);
    assert_eq!(lit_points(&fb), vec![(0, 0), (1, 0), (2, 0), (3, 0), (4, 0), (5, 0)]);
    let mut rev = blank();
    bresenham::line(&mut rev, stroke_line(5, 0, 0, 0), None, false);
    assert_eq!(lit_points(&rev), lit_points(&fb));
}

#[test]
fn line_diagonal_and_steep() {
    let mut fb = blank();
    bresenham::line(&mut fb, stroke_line(0, 0, 3, 3), None, false);
    assert_eq!(lit_points(&fb), vec![(0, 0), (1, 1), (2, 2), (3, 3)]);
    let mut steep = blank();
    bresenham::line(&mut steep, stroke_line(10, 10, 11, 14), None, false);
    assert_eq!(lit_points(&steep), vec![(10, 10), (10, 11), (11, 12), (11, 13), (11, 14)]);
}

#[test]
fn line_without_stroke_draws_nothing() {
    let mut fb = blank();
    let l = Line::new_with_style(Point::new(0, 0), Point::new(5, 5), style(Some(PixelColor::Light), None, 1));
    bresenham::line(&mut fb, l, None, false);
    assert!(fb.iter().all(|w| *w == 0));
}

#[test]
fn line_skips_points_off_canvas_and_outside_clip() {
    let mut fb = blank();
    bresenham::line(&mut fb, stroke_line(-2, 0, 2, 0), None, false);
    assert_eq!(lit_points(&fb), vec![(0, 0), (1, 0), (2, 0)]);
    let mut clipped = blank();
    let clip = Rectangle::new(Point::new(2, 0), Point::new(3, 0));
    bresenham::line(&mut clipped, stroke_line(0, 0, 5, 0), Some(clip), false);
    assert_eq!(lit_points(&clipped), vec![(2, 0), (3, 0)]);
}

#[test]
fn line_xor_toggles() {
    let mut fb = blank();
    bresenham::line(&mut fb, stroke_line(0, 1, 3, 1), None, true);
    assert_eq!(lit_points(&fb), vec![(0, 1), (1, 1), (2, 1), (3, 1)]);
    bresenham::line(&mut fb, stroke_line(0, 1, 3, 1), None, true);
    assert!(lit_points(&fb).is_empty());
    assert!(dirty(&fb, 1));
}

#[test]
fn circle_radius_three_fill_dark_covers_squared_distance_ten() {
    let mut fb = all_light();
    let c = Circle::new_with_style(Point::new(20, 20), 3, style(Some(PixelColor::Dark), None, 1));
    circle(&mut fb, c, None);
    for dy in -4i32..=4 {
        for dx in -4i32..=4 {
            let x = (20 + dx) as usize;
            let y = (20 + dy) as usize;
            assert_eq!(!light(&fb, x, y), dx * dx + dy * dy <= 10, "offset ({}, {})", dx, dy);
        }
    }
}

#[test]
fn circle_negative_radius_uses_absolute_value() {
    let mut a = blank();
    let mut b = blank();
    let s = style(Some(PixelColor::Light), None, 1);
    circle(&mut a, Circle::new_with_style(Point::new(30, 30), 2, s), None);
    circle(&mut b, Circle::new_with_style(Point::new(30, 30), -2, s), None);
    assert_eq!(lit_points(&a), lit_points(&b));
    assert_eq!(lit_points(&a).len(), 21);
}

#[test]
fn circle_stroke_ring() {
    let mut fb = blank();
    let c = Circle::new_with_style(Point::new(50, 50), 4, style(None, Some(PixelColor::Light), 1));
    circle(&mut fb, c, None);
    // inner = 4; the ring holds squared distances 13..=19
    assert!(light(&fb, 54, 50));
    assert!(light(&fb, 53, 52));
    assert!(!light(&fb, 50, 50));
    for (x, y) in lit_points(&fb) {
        let d = (x as i32 - 50).pow(2) + (y as i32 - 50).pow(2);
        assert!(d > 12 && d < 20);
    }
}

#[test]
fn transparent_shapes_draw_nothing() {
    let mut fb = blank();
    let none = style(None, None, 1);
    circle(&mut fb, Circle::new_with_style(Point::new(10, 10), 5, none), None);
    rectangle(&mut fb, Rectangle::new_with_style(Point::new(1, 1), Point::new(9, 9), none), None);
    assert!(fb.iter().all(|w| *w == 0));
}

#[test]
fn filled_rectangle_interior_takes_fill_and_marks_rows() {
    let mut fb = blank();
    let r = Rectangle::new_with_style(Point::new(10, 10), Point::new(20, 15), style(Some(PixelColor::Light), None, 1));
    rectangle(&mut fb, r, None);
    for y in 11..15 {
        for x in 11..20 {
            assert!(light(&fb, x, y));
        }
        assert!(dirty(&fb, y));
    }
    assert_eq!(lit_points(&fb).len(), 11 * 6);
    assert!(!dirty(&fb, 9));
    assert!(!dirty(&fb, 16));
}

#[test]
fn stroked_rectangle_has_border_band() {
    let mut fb = blank();
    let r = Rectangle::new_with_style(Point::new(0, 0), Point::new(5, 4), style(Some(PixelColor::Dark), Some(PixelColor::Light), 1));
    rectangle(&mut fb, r, None);
    assert_eq!(lit_points(&fb).len(), 6 * 5 - 4 * 3);
    assert!(light(&fb, 0, 2));
    assert!(!light(&fb, 2, 2));
    let mut wide = blank();
    let r2 = Rectangle::new_with_style(Point::new(0, 0), Point::new(5, 5), style(None, Some(PixelColor::Light), 2));
    rectangle(&mut wide, r2, None);
    assert_eq!(lit_points(&wide).len(), 36 - 4);
}

#[test]
fn clip_disjoint_from_shape_writes_nothing() {
    let mut fb = blank();
    let clip = Rectangle::new(Point::new(200, 200), Point::new(210, 210));
    let s = style(Some(PixelColor::Light), Some(PixelColor::Light), 1);
    rectangle(&mut fb, Rectangle::new_with_style(Point::new(0, 0), Point::new(20, 20), s), Some(clip));
    circle(&mut fb, Circle::new_with_style(Point::new(50, 50), 10, s), Some(clip));
    rounded_rectangle(&mut fb, RoundedRectangle::new(Rectangle::new_with_style(Point::new(0, 0), Point::new(30, 30), s), 4), Some(clip));
    assert!(fb.iter().all(|w| *w == 0));
}

#[test]
fn clip_restricts_rectangle() {
    let mut fb = blank();
    let clip = Rectangle::new(Point::new(3, 3), Point::new(4, 5));
    let r = Rectangle::new_with_style(Point::new(0, 0), Point::new(9, 9), style(Some(PixelColor::Light), None, 0));
    rectangle(&mut fb, r, Some(clip));
    assert_eq!(lit_points(&fb), vec![(3, 3), (4, 3), (3, 4), (4, 4), (3, 5), (4, 5)]);
}

#[test]
fn rounded_rectangle_radius_zero_matches_rectangle() {
    let s = style(Some(PixelColor::Dark), Some(PixelColor::Light), 1);
    let border = Rectangle::new_with_style(Point::new(5, 6), Point::new(25, 18), s);
    let mut a = blank();
    rectangle(&mut a, border, None);
    let mut b = blank();
    rounded_rectangle(&mut b, RoundedRectangle::new(border, 0), None);
    assert_eq!(a.to_vec(), b.to_vec());
}

#[test]
fn rounded_rectangle_cuts_corners() {
    let s = style(Some(PixelColor::Light), None, 1);
    let border = Rectangle::new_with_style(Point::new(10, 10), Point::new(40, 30), s);
    let mut fb = blank();
    rounded_rectangle(&mut fb, RoundedRectangle::new(border, 5), None);
    assert!(!light(&fb, 10, 10));
    assert!(!light(&fb, 40, 10));
    assert!(!light(&fb, 10, 30));
    assert!(!light(&fb, 40, 30));
    assert!(light(&fb, 25, 10));
    assert!(light(&fb, 10, 20));
    assert!(light(&fb, 15, 15));
    assert!(light(&fb, 25, 20));
}

#[test]
fn quadrant_negative_radius_draws_nothing() {
    let mut fb = blank();
    let c = Circle::new_with_style(Point::new(20, 20), -3, style(Some(PixelColor::Light), None, 1));
    quadrant(&mut fb, c, Quadrant::BottomRight, None);
    assert!(fb.iter().all(|w| *w == 0));
}

#[test]
fn quadrant_top_left_covers_its_quarter() {
    let mut fb = blank();
    let c = Circle::new_with_style(Point::new(20, 20), 2, style(Some(PixelColor::Light), None, 1));
    quadrant(&mut fb, c, Quadrant::TopLeft, None);
    let pts = lit_points(&fb);
    assert!(pts.iter().all(|&(x, y)| x <= 20 && y <= 21));
    assert!(pts.contains(&(18, 20)));
    assert!(pts.contains(&(20, 18)));
    assert!(!pts.contains(&(18, 18)));
    assert!(pts.contains(&(20, 21)) == false);
    assert!(pts.contains(&(19, 21)));
}

#[test]
fn iterators_yield_points_in_row_major_order() {
    let r = Rectangle::new_with_style(Point::new(1, 2), Point::new(3, 3), style(Some(PixelColor::Light), None, 0));
    let mut it = RectangleIterator::new(r, None);
    let mut pts = Vec::new();
    while let Some(p) = it.next() {
        pts.push((p.0.x, p.0.y, p.1));
    }
    let l = PixelColor::Light;
    assert_eq!(pts, vec![(1, 2, l), (2, 2, l), (3, 2, l), (1, 3, l), (2, 3, l), (3, 3, l)]);
    let c = Circle::new_with_style(Point::new(0, 0), 1, style(Some(PixelColor::Dark), None, 1));
    let mut ci = CircleIterator::new(c, None);
    let first = ci.next().unwrap();
    assert_eq!((first.0.x, first.0.y), (-1, -1));
    let mut n = 1;
    while ci.next().is_some() {
        n += 1;
    }
    assert_eq!(n, 9);
}

#[test]
fn quadrant_row_bounds_differ_between_top_and_bottom() {
    let s = style(Some(PixelColor::Light), None, 1);
    let c = Circle::new_with_style(Point::new(10, 10), 0, s);
    let mut top = blank();
    quadrant(&mut top, c, Quadrant::TopLeft, None);
    assert_eq!(lit_points(&top), vec![(10, 10)]);
    let mut bottom = blank();
    quadrant(&mut bottom, c, Quadrant::BottomRight, None);
    assert_eq!(lit_points(&bottom), vec![(10, 10), (10, 11)]);
    let mut it = QuadrantIterator::new(c, Quadrant::BottomLeft, None);
    let mut n = 0;
    while it.next().is_some() {
        n += 1;
    }
    assert_eq!(n, 2);
}

#[test]
fn rounded_rectangle_iterator_skips_corner_boxes() {
    let s = style(Some(PixelColor::Light), None, 0);
    let border = Rectangle::new_with_style(Point::new(0, 0), Point::new(4, 4), s);
    let mut it = RoundedRectangleIterator::new(RoundedRectangle::new(border, 1), None);
    let mut pts = Vec::new();
    while let Some(p) = it.next() {
        pts.push((p.0.x, p.0.y));
    }
    assert_eq!(pts.len(), 25 - 16);
    assert!(!pts.contains(&(0, 0)));
    assert!(!pts.contains(&(1, 1)));
    assert!(pts.contains(&(2, 0)));
    assert!(pts.contains(&(2, 2)));
}

#[test]
fn circle_clip_keeps_traversal() {
    let s = style(Some(PixelColor::Light), None, 1);
    let c = Circle::new_with_style(Point::new(20, 20), 2, s);
    let clip = Rectangle::new(Point::new(20, 0), Point::new(100, 100));
    let mut fb = blank();
    circle(&mut fb, c, Some(clip));
    let pts = lit_points(&fb);
    assert!(pts.iter().all(|&(x, _)| x >= 20));
    assert_eq!(pts.len(), 13);
}

#[test]
fn transparent_iterator_stops_at_once() {
    let none = style(None, None, 1);
    let mut it = RectangleIterator::new(Rectangle::new_with_style(Point::new(0, 0), Point::new(50, 50), none), None);
    assert!(it.next().is_none());
    assert_eq!((it.sweep.x, it.sweep.y), (it.sweep.shape.end_x, it.sweep.shape.end_y));
    let mut ci = CircleIterator::new(Circle::new_with_style(Point::new(60, 60), 9, none), None);
    assert!(ci.next().is_none());
}

#[test]
fn circle_radius_zero_and_one_cover_their_squares() {
    let s = style(Some(PixelColor::Light), None, 1);
    let mut dot = blank();
    circle(&mut dot, Circle::new_with_style(Point::new(7, 8), 0, s), None);
    assert_eq!(lit_points(&dot), vec![(7, 8)]);
    let mut one = blank();
    circle(&mut one, Circle::new_with_style(Point::new(7, 8), 1, s), None);
    assert_eq!(lit_points(&one).len(), 9);
    assert!(light(&one, 8, 9));
}
