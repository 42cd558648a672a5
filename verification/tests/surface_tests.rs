use vibe_boot::surface::PixelSurface;

fn snapshot(s: &PixelSurface) -> Vec<u32> {
    let mut pixels = Vec::new();
    for y in 0..s.height {
        for x in 0..s.width {
            pixels.push(s.pixel(x, y));
        }
    }
    pixels
}

#[test]
fn new_surface_is_zeroed() {
    let s = PixelSurface::new(4, 3);
    assert_eq!(s.width, 4);
    assert_eq!(s.height, 3);
    for y in 0..3 {
        for x in 0..4 {
            assert_eq!(s.pixel(x, y), 0);
            assert_eq!(s.front_pixel(x, y), 0);
        }
    }
}

#[test]
fn fill_sets_every_pixel() {
    let mut s = PixelSurface::new(5, 4);
    s.fill(0x123456);
    for y in 0..4 {
        for x in 0..5 {
            assert_eq!(s.pixel(x, y), 0x123456);
        }
    }
}

#[test]
fn fill_twice_is_fill_once() {
    let mut once = PixelSurface::new(6, 6);
    once.write_pixel(2, 2, 0xdeadbe);
    once.fill(0x777777);
    let mut twice = PixelSurface::new(6, 6);
    twice.write_pixel(2, 2, 0xdeadbe);
    twice.fill(0x777777);
    twice.fill(0x777777);
    assert_eq!(snapshot(&once), snapshot(&twice));
}

#[test]
fn write_pixel_round_trip() {
    let mut s = PixelSurface::new(7, 5);
    s.fill(0x101010);
    s.write_pixel(3, 2, 0xabcdef);
    assert_eq!(s.pixel(3, 2), 0xabcdef);
    for y in 0..5 {
        for x in 0..7 {
            if !(x == 3 && y == 2) {
                assert_eq!(s.pixel(x, y), 0x101010);
            }
        }
    }
}

#[test]
fn out_of_bounds_write_changes_nothing() {
    let mut s = PixelSurface::new(7, 5);
    s.fill(0x101010);
    let before = snapshot(&s);
    s.write_pixel(7, 0, 0xffffff);
    s.write_pixel(0, 5, 0xffffff);
    s.write_pixel(1000, 1000, 0xffffff);
    assert_eq!(snapshot(&s), before);
}

#[test]
fn present_copies_back_to_front() {
    let mut s = PixelSurface::new(3, 3);
    s.write_pixel(1, 1, 0x445566);
    assert_eq!(s.front_pixel(1, 1), 0);
    s.present();
    for y in 0..3 {
        for x in 0..3 {
            assert_eq!(s.front_pixel(x, y), s.pixel(x, y));
        }
    }
    assert_eq!(s.front_pixel(1, 1), 0x445566);
}

#[test]
fn scroll_moves_rows_up_and_fills_bottom() {
    let width = 4;
    let height = 8;
    let mut s = PixelSurface::new(width, height);
    // A recognizable per-row pattern.
    for y in 0..height {
        for x in 0..width {
            s.write_pixel(x, y, 100 + y as u32);
        }
    }
    let r = 3;
    s.scroll_rows(r, 0x31337);
    for y in 0..height - r {
        for x in 0..width {
            assert_eq!(s.pixel(x, y), 100 + (y + r) as u32);
        }
    }
    for y in height - r..height {
        for x in 0..width {
            assert_eq!(s.pixel(x, y), 0x31337);
        }
    }
}

#[test]
fn scroll_by_zero_keeps_everything() {
    let mut s = PixelSurface::new(3, 4);
    for y in 0..4 {
        s.write_pixel(y % 3, y, 0x200 + y as u32);
    }
    let before = snapshot(&s);
    s.scroll_rows(0, 0xffffff);
    assert_eq!(snapshot(&s), before);
}

#[test]
fn scroll_past_height_clears_surface() {
    let mut s = PixelSurface::new(3, 4);
    s.fill(0x999999);
    s.scroll_rows(9, 0x111111);
    for y in 0..4 {
        for x in 0..3 {
            assert_eq!(s.pixel(x, y), 0x111111);
        }
    }
}
