use beeos_core::console::TextDisplay;
use beeos_core::display::{Color, Display, PixelFormat, Point, SurfaceInfo};

fn rgb_info() -> SurfaceInfo {
    SurfaceInfo { width: 64, height: 48, stride: 70, bytes_per_pixel: 4, format: PixelFormat::Rgb }
}

fn surface(info: SurfaceInfo, fill: u8) -> Display {
    let len = info.stride * info.bytes_per_pixel * info.height;
    Display::new(vec![fill; len], info)
}

/// A small console: 3 columns (27 of 30 pixels wide) by 2 rows (40 pixels).
fn small_console(fill: u8) -> TextDisplay {
    let info = SurfaceInfo {
        width: 27,
        height: 40,
        stride: 30,
        bytes_per_pixel: 1,
        format: PixelFormat::U8,
    };
    let len = info.stride * info.bytes_per_pixel * info.height;
    TextDisplay::new(vec![fill; len], info, Color(0, 0, 0), Color(255, 255, 0))
}

#[test]
fn draw_pixel_readback_rgb() {
    let mut d = surface(rgb_info(), 0);
    d.draw_pixel(Color(10, 20, 30), Point(3, 2));
    assert_eq!(d.read_pixel(Point(3, 2)), vec![10, 20, 30]);
}

#[test]
fn draw_pixel_readback_bgr() {
    let info = SurfaceInfo { format: PixelFormat::Bgr, ..rgb_info() };
    let mut d = surface(info, 7);
    d.draw_pixel(Color(10, 20, 30), Point(0, 0));
    assert_eq!(d.read_pixel(Point(0, 0)), vec![30, 20, 10]);
}

#[test]
fn draw_pixel_readback_grayscale() {
    let info = SurfaceInfo {
        width: 640,
        height: 480,
        stride: 640,
        bytes_per_pixel: 1,
        format: PixelFormat::U8,
    };
    let mut d = surface(info, 0);
    d.draw_pixel(Color(10, 20, 30), Point(639, 479));
    assert_eq!(d.read_pixel(Point(639, 479)), vec![20]);
}

#[test]
fn untouched_pixels_keep_their_bytes() {
    let mut d = surface(rgb_info(), 9);
    d.draw_pixel(Color(1, 2, 3), Point(5, 5));
    assert_eq!(d.read_pixel(Point(4, 5)), vec![9, 9, 9]);
    assert_eq!(d.read_pixel(Point(6, 5)), vec![9, 9, 9]);
    assert_eq!(d.read_pixel(Point(5, 4)), vec![9, 9, 9]);
}

#[test]
fn oversized_rect_is_rejected() {
    let info = SurfaceInfo {
        width: 640,
        height: 480,
        stride: 640,
        bytes_per_pixel: 1,
        format: PixelFormat::U8,
    };
    let d = surface(info, 0);
    assert!(!d.rect_in_bounds(Point(0, 0), Point(641, 10)));
    assert!(d.rect_in_bounds(Point(0, 0), Point(640, 10)));
    assert!(!d.rect_in_bounds(Point(5, 5), Point(4, 10)));
}

#[test]
fn draw_rect_fills_exactly_the_rectangle() {
    let mut d = surface(rgb_info(), 0);
    d.draw_rect(Color(5, 6, 7), Point(2, 3), Point(4, 5));
    assert_eq!(d.read_pixel(Point(2, 3)), vec![5, 6, 7]);
    assert_eq!(d.read_pixel(Point(3, 4)), vec![5, 6, 7]);
    assert_eq!(d.read_pixel(Point(4, 4)), vec![0, 0, 0]);
    assert_eq!(d.read_pixel(Point(2, 5)), vec![0, 0, 0]);
    assert_eq!(d.read_pixel(Point(1, 3)), vec![0, 0, 0]);
}

#[test]
fn copy_rect_moves_content() {
    let mut d = surface(rgb_info(), 0);
    d.draw_rect(Color(9, 8, 7), Point(0, 0), Point(2, 2));
    d.copy_rect(Point(0, 0), Point(10, 10), 2, 2);
    assert_eq!(d.read_pixel(Point(10, 10)), vec![9, 8, 7]);
    assert_eq!(d.read_pixel(Point(11, 11)), vec![9, 8, 7]);
    assert_eq!(d.read_pixel(Point(12, 10)), vec![0, 0, 0]);
    assert_eq!(d.read_pixel(Point(0, 0)), vec![9, 8, 7]);
}

#[test]
fn console_grid_is_derived_from_geometry() {
    let c = small_console(0);
    assert_eq!(c.grid_width(), 3);
    assert_eq!(c.grid_height(), 2);
    let p = c.cursor();
    assert_eq!((p.0, p.1), (0, 0));
}

#[test]
fn cell_size_is_nine_by_twenty() {
    // 63 visible pixels hold exactly 7 cells of the 9-pixel advance width,
    // and 50 pixel rows hold 2 cells of the 20-pixel cell height.
    let info = SurfaceInfo {
        width: 63,
        height: 50,
        stride: 64,
        bytes_per_pixel: 1,
        format: PixelFormat::U8,
    };
    let len = info.stride * info.bytes_per_pixel * info.height;
    let c = TextDisplay::new(vec![0; len], info, Color(0, 0, 0), Color(255, 255, 255));
    assert_eq!(c.grid_width(), 7);
    assert_eq!(c.grid_height(), 2);
}

#[test]
fn writing_advances_and_wraps_the_cursor() {
    let mut c = small_console(0);
    c.write_text("ab");
    assert_eq!(c.cursor().0, 2);
    assert_eq!(c.cursor().1, 0);
    c.write_text("c");
    // Wrapped at the grid width of 3.
    assert_eq!(c.cursor().0, 0);
    assert_eq!(c.cursor().1, 1);
    assert!(c.cursor().0 < 3);
    c.write_text("def");
    // Wrapped off the last row: scrolled, cursor stays on the last row.
    assert_eq!(c.cursor().0, 0);
    assert_eq!(c.cursor().1, 1);
}

#[test]
fn newline_moves_to_row_start() {
    let mut c = small_console(0);
    c.write_text("a\n");
    assert_eq!(c.cursor().0, 0);
    assert_eq!(c.cursor().1, 1);
}

#[test]
fn glyphs_leave_visible_ink() {
    let mut c = small_console(0);
    c.write_text("a");
    assert!(c.snapshot().iter().any(|&b| b != 0));
}

#[test]
fn unknown_character_renders_as_replacement() {
    let mut a = small_console(0);
    let mut b = small_console(0);
    a.write_text("\u{263a}");
    b.write_text("?");
    assert_eq!(a.snapshot(), b.snapshot());
    assert!(b.snapshot().iter().any(|&v| v != 0));
}

#[test]
fn rerender_after_clear_is_identical() {
    // The same text from a cleared home position gives the same cursor and
    // the same cells, whatever was on the surface before.
    let mut a = small_console(0x00);
    let mut b = small_console(0xaa);
    a.write_text("xy");
    b.write_text("q\nr");
    a.clear();
    a.move_cursor(Point(0, 0));
    b.clear();
    b.move_cursor(Point(0, 0));
    a.write_text("hi\nyo");
    b.write_text("hi\nyo");
    assert_eq!(a.cursor(), b.cursor());
    // Every visible pixel agrees (padding columns beyond the width may not).
    for y in 0..40 {
        for x in 0..27 {
            assert_eq!(a.read_pixel(Point(x, y)), b.read_pixel(Point(x, y)));
        }
    }
}

#[test]
fn scrolling_discards_the_first_line_and_clears_the_last() {
    // Writing three lines on a two-row console leaves the last two lines,
    // shifted up one row, with the freed row cleared before reuse.
    let mut a = small_console(0);
    a.write_text("a\nb\nc");
    let mut b = small_console(0);
    b.write_text("b\nc");
    assert_eq!(a.cursor(), b.cursor());
    assert_eq!(a.snapshot(), b.snapshot());
}

#[test]
fn clear_line_clears_exactly_one_row() {
    let mut c = small_console(0);
    c.write_text("a\nb");
    let before = c.snapshot();
    c.clear_line(0);
    let after = c.snapshot();
    // Row 0 (pixel rows 0..20) is background everywhere.
    for y in 0..20 {
        for x in 0..27 {
            assert_eq!(c.read_pixel(Point(x, y)), vec![0]);
        }
    }
    // Pixel rows of row 1 are untouched.
    assert_eq!(&before[20 * 30..], &after[20 * 30..]);
}

#[test]
fn colors_take_effect_on_the_next_draw() {
    let mut c = small_console(0);
    c.set_text_color(Color(255, 255, 255));
    c.set_clear_color(Color(3, 3, 3));
    c.clear();
    // Grayscale of (3, 3, 3) is 3.
    assert_eq!(c.read_pixel(Point(0, 0)), vec![3]);
}
