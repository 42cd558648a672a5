use vibe_boot::console::Cursor;
use vibe_boot::font::Font;

/// A synthetic 8x16 PSF2 font with 128 glyphs, every glyph filled with
/// `glyph_byte` on each of its 16 scanlines.
fn make_font(glyph_byte: u8) -> Font {
    let mut data: Vec<u8> = vec![0x72, 0xb5, 0x4a, 0x86];
    let fields: [u32; 7] = [0, 32, 0, 128, 16, 16, 8];
    for f in fields.iter() {
        data.extend_from_slice(&f.to_le_bytes());
    }
    for _ in 0..128 * 16 {
        data.push(glyph_byte);
    }
    Font::new(&data).unwrap()
}

#[test]
fn new_cursor_defaults() {
    let c = Cursor::new(64, 32);
    assert_eq!(c.x, 0);
    assert_eq!(c.y, 0);
    assert_eq!(c.color_bg, 0x1a1b26);
    assert_eq!(c.color_fg, 0xc0caf5);
    assert!(c.font.is_none());
    assert!(c.dirty);
    assert_eq!(c.surface.width, 64);
    assert_eq!(c.surface.height, 32);
}

/// The spleen 8x16 glyph bitmaps, re-wrapped in the glyph-table header this
/// library reads (the crate ships them behind a one-byte-header format).
fn spleen_8x16() -> Font {
    let src = spleen_font::FONT_8X16;
    let mut data: Vec<u8> = vec![0x72, 0xb5, 0x4a, 0x86];
    let fields: [u32; 7] = [0, 32, 0, 512, 16, 16, 8];
    for f in fields.iter() {
        data.extend_from_slice(&f.to_le_bytes());
    }
    data.extend_from_slice(&src[4..4 + 512 * 16]);
    Font::new(&data).unwrap()
}

#[test]
fn end_to_end_hi_newline_bang() {
    let mut c = Cursor::new(128, 64);
    c.font = Some(spleen_8x16());
    c.write_str("Hi\n");
    assert_eq!(c.x, 0);
    assert_eq!(c.y, 16);
    c.write_str("!");
    assert_eq!(c.x, 8);
    assert_eq!(c.y, 16);
    // The '!' glyph was drawn at (0, 16): its cell holds foreground pixels.
    let mut fg_pixels = 0;
    for y in 16..32 {
        for x in 0..8 {
            if c.surface.pixel(x, y) == c.color_fg {
                fg_pixels += 1;
            }
        }
    }
    assert!(fg_pixels > 0);
}

#[test]
fn full_block_glyph_paints_whole_cell() {
    let mut c = Cursor::new(32, 32);
    c.font = Some(make_font(0xFF));
    c.draw_char('A');
    assert_eq!(c.x, 8);
    assert_eq!(c.y, 0);
    for py in 0..16 {
        for px in 0..8 {
            assert_eq!(c.surface.pixel(px, py), c.color_fg);
        }
    }
    // Pixels outside the glyph cell keep the backdrop.
    assert_eq!(c.surface.pixel(8, 0), 0);
    assert_eq!(c.surface.pixel(0, 16), 0);
}

#[test]
fn bits_are_msb_first() {
    let mut c = Cursor::new(32, 32);
    c.font = Some(make_font(0x80));
    c.draw_char('A');
    // Only the leftmost column of the cell is painted.
    for py in 0..16 {
        assert_eq!(c.surface.pixel(0, py), c.color_fg);
        for px in 1..8 {
            assert_eq!(c.surface.pixel(px, py), 0);
        }
    }
}

#[test]
fn unset_bits_are_transparent() {
    let mut c = Cursor::new(32, 32);
    c.clear(0x222222);
    c.font = Some(make_font(0x00));
    c.draw_char('A');
    assert_eq!(c.x, 8);
    for py in 0..16 {
        for px in 0..8 {
            assert_eq!(c.surface.pixel(px, py), 0x222222);
        }
    }
}

#[test]
fn newline_without_font_uses_fallback_height() {
    let mut c = Cursor::new(64, 64);
    c.x = 5;
    c.draw_char('\n');
    assert_eq!(c.x, 0);
    assert_eq!(c.y, 16);
}

#[test]
fn printable_without_font_is_skipped() {
    let mut c = Cursor::new(64, 64);
    let before_x = c.x;
    let before_y = c.y;
    c.draw_char('A');
    assert_eq!(c.x, before_x);
    assert_eq!(c.y, before_y);
}

#[test]
fn out_of_range_glyph_is_skipped() {
    let mut c = Cursor::new(64, 64);
    c.font = Some(make_font(0xFF));
    // The synthetic font has 128 glyphs; this code point lies beyond them.
    c.draw_char('\u{80}');
    assert_eq!(c.x, 0);
    assert_eq!(c.y, 0);
    assert_eq!(c.surface.pixel(0, 0), 0);
}

#[test]
fn wraps_at_right_edge() {
    let mut c = Cursor::new(12, 64);
    c.font = Some(make_font(0xFF));
    c.draw_char('A');
    assert_eq!(c.x, 8);
    c.draw_char('B');
    // 8 + 8 > 12: wrap to column 0 of the next text row first.
    assert_eq!(c.x, 8);
    assert_eq!(c.y, 16);
    assert_eq!(c.surface.pixel(0, 16), c.color_fg);
}

#[test]
fn scrolls_when_reaching_the_bottom() {
    let mut c = Cursor::new(16, 32);
    c.font = Some(make_font(0xFF));
    c.draw_char('\n');
    assert_eq!(c.y, 16);
    // Leave a mark on the second text row, then force a scroll.
    c.draw_char('A');
    assert_eq!(c.y, 16);
    c.draw_char('\n');
    // y would reach 32; the console scrolls one text row instead.
    assert_eq!(c.y, 16);
    assert_eq!(c.x, 0);
    // The mark moved up one text row.
    assert_eq!(c.surface.pixel(0, 0), c.color_fg);
    // The exposed bottom rows hold the background color.
    assert_eq!(c.surface.pixel(0, 16), c.color_bg);
}

#[test]
fn clear_sets_background_and_keeps_cursor() {
    let mut c = Cursor::new(16, 16);
    c.x = 3;
    c.y = 7;
    c.clear(0x334455);
    assert_eq!(c.color_bg, 0x334455);
    assert_eq!(c.x, 3);
    assert_eq!(c.y, 7);
    for y in 0..16 {
        for x in 0..16 {
            assert_eq!(c.surface.pixel(x, y), 0x334455);
        }
    }
}

#[test]
fn write_pixel_sets_dirty_only_in_bounds() {
    let mut c = Cursor::new(8, 8);
    c.dirty = false;
    c.write_pixel(9, 9, 0xffffff);
    assert!(!c.dirty);
    c.write_pixel(2, 2, 0xffffff);
    assert!(c.dirty);
    assert_eq!(c.surface.pixel(2, 2), 0xffffff);
}

#[test]
fn blit_copies_to_front() {
    let mut c = Cursor::new(8, 8);
    c.write_pixel(1, 1, 0x123123);
    assert_eq!(c.surface.front_pixel(1, 1), 0);
    c.blit();
    assert_eq!(c.surface.front_pixel(1, 1), 0x123123);
}
