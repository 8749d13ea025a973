//! Tests of the display surface and the XOR-with-wraparound drawing rule.

use chip_8::display::{draw_byte, draw_sprite, Display};

#[test]
fn new_display_is_dark() {
    let d = Display::new();
    for y in 0..32 {
        for x in 0..64 {
            assert!(!d.pixel(x, y));
        }
    }
}

#[test]
fn draw_byte_lights_the_row_msb_first() {
    let mut d = Display::new();
    let vf = draw_byte(&mut d, 0, 0, 0b1010_0001);
    assert!(!vf);
    assert!(d.pixel(0, 0));
    assert!(!d.pixel(1, 0));
    assert!(d.pixel(2, 0));
    assert!(!d.pixel(3, 0));
    assert!(!d.pixel(6, 0));
    assert!(d.pixel(7, 0));
    assert!(!d.pixel(8, 0));
}

#[test]
fn draw_byte_twice_erases_and_collides() {
    let mut d = Display::new();
    assert!(!draw_byte(&mut d, 5, 7, 0xFF));
    // The same row again: every pixel goes dark, and the collision flag
    // reports that lit pixels were cleared.
    assert!(draw_byte(&mut d, 5, 7, 0xFF));
    for x in 0..64 {
        assert!(!d.pixel(x, 7));
    }
}

#[test]
fn draw_byte_wraps_horizontally() {
    let mut d = Display::new();
    assert!(!draw_byte(&mut d, 60, 3, 0xFF));
    for x in 60..64 {
        assert!(d.pixel(x, 3));
    }
    for x in 0..4 {
        assert!(d.pixel(x, 3));
    }
    assert!(!d.pixel(4, 3));
    assert!(!d.pixel(59, 3));
}

#[test]
fn draw_byte_wraps_vertically() {
    let mut d = Display::new();
    assert!(!draw_byte(&mut d, 0, 33, 0x80));
    assert!(d.pixel(0, 1));
    assert!(!d.pixel(0, 33 % 32 + 1));
}

#[test]
fn sprite_at_the_corner_wraps_across_both_edges() {
    // An 8x3 sprite at (60, 30) spills over the right edge onto columns
    // 0 to 3 and over the bottom edge onto row 0.
    let mut d = Display::new();
    let rows = [0xFF, 0xFF, 0xFF];
    let vf = draw_sprite(&mut d, 60, 30, &rows);
    assert!(!vf);
    for &y in &[30usize, 31, 0] {
        for x in 60..64 {
            assert!(d.pixel(x, y));
        }
        for x in 0..4 {
            assert!(d.pixel(x, y));
        }
        for x in 4..60 {
            assert!(!d.pixel(x, y));
        }
    }
    for y in 1..30 {
        for x in 0..64 {
            assert!(!d.pixel(x, y));
        }
    }
}

#[test]
fn collision_reports_only_previously_lit_pixels() {
    let mut d = Display::new();
    // Light exactly the wrapped pixel (1, 0), then draw the corner sprite:
    // its bottom-right wrapped corner meets that pixel.
    assert!(!draw_byte(&mut d, 1, 0, 0x80));
    let vf = draw_sprite(&mut d, 60, 30, &[0x00, 0x00, 0x04]);
    assert!(vf);
    // The XOR turned the lit pixel off again.
    assert!(!d.pixel(1, 0));
    // The same sprite over now-dark pixels reports no collision.
    let vf2 = draw_sprite(&mut d, 60, 30, &[0x00, 0x00, 0x02]);
    assert!(!vf2);
    assert!(d.pixel(2, 0));
}

#[test]
fn clear_turns_everything_off() {
    let mut d = Display::new();
    draw_byte(&mut d, 10, 10, 0xFF);
    d.clear();
    for y in 0..32 {
        for x in 0..64 {
            assert!(!d.pixel(x, y));
        }
    }
}
