use fbconsole::writer::{FrameBufferInfo, FrameBufferWriter, PixelFormat};
use fbconsole::{BACKSPACE, BORDER_PADDING, GLYPH_HEIGHT, GLYPH_WIDTH, LINE_SPACING};

fn demo_info(width: usize, height: usize, bpp: usize, fmt: PixelFormat) -> FrameBufferInfo {
    FrameBufferInfo {
        byte_len: width * height * bpp,
        width,
        height,
        pixel_format: fmt,
        bytes_per_pixel: bpp,
        stride: width,
    }
}

fn installed(width: usize, height: usize, bpp: usize, fmt: PixelFormat) -> FrameBufferWriter {
    let info = demo_info(width, height, bpp, fmt);
    let mut w = FrameBufferWriter::empty();
    w.init(vec![0u8; info.byte_len], info);
    w
}

fn chars(s: &str) -> Vec<char> {
    s.chars().collect()
}

#[test]
fn empty_writer_has_no_surface() {
    let w = FrameBufferWriter::empty();
    assert!(!w.is_installed());
    assert_eq!(w.x_pos(), 0);
    assert_eq!(w.y_pos(), 0);
}

#[test]
fn init_clears_and_resets_cursor() {
    let w = installed(40, 60, 3, PixelFormat::Rgb);
    assert!(w.is_installed());
    assert_eq!(w.x_pos(), BORDER_PADDING);
    assert_eq!(w.y_pos(), BORDER_PADDING);
    for i in 0..w.buffer_len() {
        assert_eq!(w.buffer_byte(i), 0);
    }
}

#[test]
fn clear_then_empty_write_leaves_padded_origin_and_zero_surface() {
    let mut w = installed(40, 60, 3, PixelFormat::Rgb);
    w.write_text(&chars("ab"));
    w.clear();
    w.write_text(&chars(""));
    assert_eq!(w.x_pos(), BORDER_PADDING);
    assert_eq!(w.y_pos(), BORDER_PADDING);
    for i in 0..w.buffer_len() {
        assert_eq!(w.buffer_byte(i), 0);
    }
}

#[test]
fn printable_text_advances_x_monotonically() {
    let mut w = installed(100, 60, 4, PixelFormat::Bgr);
    let x0 = w.x_pos();
    let y0 = w.y_pos();
    w.write_text(&chars("a"));
    assert_eq!(w.x_pos(), x0 + GLYPH_WIDTH);
    w.write_text(&chars("b"));
    assert_eq!(w.x_pos(), x0 + 2 * GLYPH_WIDTH);
    w.write_text(&chars("c"));
    assert_eq!(w.x_pos(), x0 + 3 * GLYPH_WIDTH);
    assert_eq!(w.y_pos(), y0);
}

#[test]
fn wrap_resets_x_and_advances_y_one_pitch() {
    // width 20: glyphs start at x = 2 and 9; the third would reach 16 + 7 >= 20
    let mut w = installed(20, 60, 1, PixelFormat::U8);
    w.write_text(&chars("ab"));
    assert_eq!(w.x_pos(), BORDER_PADDING + 2 * GLYPH_WIDTH);
    let y0 = w.y_pos();
    w.write_text(&chars("c"));
    assert_eq!(w.x_pos(), BORDER_PADDING + GLYPH_WIDTH);
    assert_eq!(w.y_pos(), y0 + GLYPH_HEIGHT + LINE_SPACING);
}

#[test]
fn bottom_wrap_clears_screen_instead_of_scrolling() {
    let mut w = installed(40, 60, 3, PixelFormat::Rgb);
    // cursor low enough that one more glyph would reach the bottom edge
    w.set_x_y_pos(None, Some(50));
    w.write_text(&chars("a"));
    // the renderer cleared and drew at the padded origin
    assert_eq!(w.y_pos(), BORDER_PADDING);
    assert_eq!(w.x_pos(), BORDER_PADDING + GLYPH_WIDTH);
}

#[test]
fn newline_and_carriage_return_move_cursor_only() {
    let mut w = installed(100, 100, 3, PixelFormat::Rgb);
    w.write_text(&chars("ab"));
    let y0 = w.y_pos();
    w.write_text(&chars("\n"));
    assert_eq!(w.x_pos(), BORDER_PADDING);
    assert_eq!(w.y_pos(), y0 + GLYPH_HEIGHT + LINE_SPACING);
    w.write_text(&chars("cd"));
    w.write_text(&chars("\r"));
    assert_eq!(w.x_pos(), BORDER_PADDING);
    assert_eq!(w.y_pos(), y0 + GLYPH_HEIGHT + LINE_SPACING);
}

#[test]
fn backspace_round_trips_cursor_x() {
    let mut w = installed(100, 60, 3, PixelFormat::Rgb);
    // move off the padding column first: the boundary behaves differently
    w.write_text(&chars("a"));
    let x0 = w.x_pos();
    let y0 = w.y_pos();
    let mut t = chars("b");
    t.push(BACKSPACE);
    w.write_text(&t);
    assert_eq!(w.x_pos(), x0);
    assert_eq!(w.y_pos(), y0);
}

#[test]
fn backspace_at_line_start_moves_to_previous_line_end() {
    let mut w = installed(20, 60, 1, PixelFormat::U8);
    // second line, one glyph in: x - width <= padding, y > one pitch + padding
    let y1 = BORDER_PADDING + GLYPH_HEIGHT + LINE_SPACING + 2;
    w.set_x_y_pos(Some(BORDER_PADDING + GLYPH_WIDTH), Some(y1));
    w.write_text(&vec![BACKSPACE]);
    assert_eq!(w.x_pos(), 20 - GLYPH_WIDTH - BORDER_PADDING);
    assert_eq!(w.y_pos(), y1 - (GLYPH_HEIGHT + LINE_SPACING));
}

#[test]
fn backspace_at_first_line_start_keeps_y() {
    let mut w = installed(20, 60, 1, PixelFormat::U8);
    w.write_text(&chars("a"));
    w.write_text(&vec![BACKSPACE]);
    assert_eq!(w.x_pos(), 20 - GLYPH_WIDTH - BORDER_PADDING);
    assert_eq!(w.y_pos(), BORDER_PADDING);
}

#[test]
fn set_x_y_pos_overrides_each_coordinate_independently() {
    let mut w = installed(40, 60, 3, PixelFormat::Rgb);
    w.set_x_y_pos(Some(9), None);
    assert_eq!(w.x_pos(), 9);
    assert_eq!(w.y_pos(), BORDER_PADDING);
    w.set_x_y_pos(None, Some(21));
    assert_eq!(w.x_pos(), 9);
    assert_eq!(w.y_pos(), 21);
    w.set_x_y_pos(None, None);
    assert_eq!(w.x_pos(), 9);
    assert_eq!(w.y_pos(), 21);
}

#[test]
fn glyph_blit_leaves_ink_on_the_surface() {
    let mut w = installed(40, 60, 3, PixelFormat::Rgb);
    w.write_text(&chars("M"));
    let mut ink = false;
    for i in 0..w.buffer_len() {
        if w.buffer_byte(i) != 0 {
            ink = true;
        }
    }
    assert!(ink, "a drawn glyph must change at least one surface byte");
}

#[test]
fn u8_format_maps_strong_ink_to_0xf() {
    let mut w = installed(40, 60, 1, PixelFormat::U8);
    w.write_text(&chars("M"));
    let mut strong = false;
    for i in 0..w.buffer_len() {
        let b = w.buffer_byte(i);
        assert!(b == 0 || b == 0xf);
        if b == 0xf {
            strong = true;
        }
    }
    assert!(strong);
}

#[test]
fn rgb_format_stores_intensity_intensity_half() {
    // every pixel holds [i, i, i / 2] for its intensity i, background included
    let mut w = installed(40, 60, 3, PixelFormat::Rgb);
    w.write_text(&chars("M"));
    let mut i = 0;
    while i + 2 < w.buffer_len() {
        let b0 = w.buffer_byte(i);
        let b1 = w.buffer_byte(i + 1);
        let b2 = w.buffer_byte(i + 2);
        assert_eq!(b0, b1);
        assert_eq!(b2, b0 / 2);
        i += 3;
    }
}

#[test]
fn clear_erases_previous_ink() {
    let mut w = installed(40, 60, 3, PixelFormat::Rgb);
    w.write_text(&chars("M"));
    w.clear();
    for i in 0..w.buffer_len() {
        assert_eq!(w.buffer_byte(i), 0);
    }
}
