use whisplay_launcher::framebuffer::{Framebuffer, BUF_SIZE, HEIGHT, WIDTH};

fn pixel(fb: &Framebuffer, x: usize, y: usize) -> u16 {
    let b = fb.as_bytes();
    let i = (y * WIDTH as usize + x) * 2;
    ((b[i] as u16) << 8) | b[i + 1] as u16
}

fn solid(w: usize, h: usize, rgba: [u8; 4]) -> Vec<u8> {
    let mut v = Vec::new();
    for _ in 0..w * h {
        v.extend_from_slice(&rgba);
    }
    v
}

#[test]
fn new_frame_is_black() {
    let fb = Framebuffer::new();
    assert_eq!(fb.as_bytes().len(), BUF_SIZE);
    assert_eq!(BUF_SIZE, (WIDTH * HEIGHT * 2) as usize);
    assert!(fb.as_bytes().iter().all(|&b| b == 0));
}

#[test]
fn draw_pixel_sets_big_endian_word() {
    let mut fb = Framebuffer::new();
    fb.draw_pixel(3, 2, 0x1234);
    let b = fb.as_bytes();
    let i = (2 * 240 + 3) * 2;
    assert_eq!(b[i], 0x12);
    assert_eq!(b[i + 1], 0x34);
    assert_eq!(b.iter().filter(|&&x| x != 0).count(), 2);
}

#[test]
fn draw_pixel_off_panel_is_ignored() {
    let mut fb = Framebuffer::new();
    fb.draw_pixel(-1, 0, 0xFFFF);
    fb.draw_pixel(0, -1, 0xFFFF);
    fb.draw_pixel(240, 0, 0xFFFF);
    fb.draw_pixel(0, 280, 0xFFFF);
    assert!(fb.as_bytes().iter().all(|&b| b == 0));
    fb.draw_pixel(239, 279, 0xFFFF);
    assert_eq!(pixel(&fb, 239, 279), 0xFFFF);
}

#[test]
fn opaque_blit_writes_rgb565() {
    let mut fb = Framebuffer::new();
    let img = solid(2, 2, [255, 0, 0, 255]);
    fb.blit_rgba_rounded(10, 20, 2, 2, 0, &img);
    for (x, y) in [(10, 20), (11, 20), (10, 21), (11, 21)] {
        assert_eq!(pixel(&fb, x, y), 0xF800);
    }
    assert_eq!(pixel(&fb, 12, 20), 0);
    assert_eq!(pixel(&fb, 10, 22), 0);
}

#[test]
fn opaque_blit_replaces_whatever_was_there() {
    let mut fb = Framebuffer::new();
    fb.draw_pixel(5, 5, 0x1234);
    let img = solid(1, 1, [0, 255, 0, 255]);
    fb.blit_rgba_rounded(5, 5, 1, 1, 0, &img);
    assert_eq!(pixel(&fb, 5, 5), 0x07E0);
}

#[test]
fn transparent_blit_changes_nothing() {
    let mut fb = Framebuffer::new();
    fb.draw_pixel(1, 1, 0xABCD);
    let before = fb.as_bytes().to_vec();
    let img = solid(8, 8, [255, 255, 255, 0]);
    fb.blit_rgba_rounded(0, 0, 8, 8, 2, &img);
    assert_eq!(fb.as_bytes(), &before[..]);
}

#[test]
fn half_alpha_blends_channels() {
    let mut fb = Framebuffer::new();
    let img = solid(1, 1, [255, 255, 255, 128]);
    fb.blit_rgba_rounded(0, 0, 1, 1, 0, &img);
    // red (31*128)/255 = 15, green (63*128)/255 = 31, blue 15
    assert_eq!(pixel(&fb, 0, 0), 0x7BEF);

    let mut fb = Framebuffer::new();
    fb.draw_pixel(0, 0, 0xFFFF);
    let img = solid(1, 1, [0, 0, 0, 128]);
    fb.blit_rgba_rounded(0, 0, 1, 1, 0, &img);
    // red (31*127)/255 = 15, green (63*127)/255 = 31, blue 15
    assert_eq!(pixel(&fb, 0, 0), 0x7BEF);
}

#[test]
fn rounded_corners_are_masked() {
    let mut fb = Framebuffer::new();
    let img = solid(10, 10, [255, 255, 255, 255]);
    fb.blit_rgba_rounded(0, 0, 10, 10, 3, &img);
    // corner centers sit 3 pixels in; (0,0) is 3*sqrt(2) away from (3,3)
    assert_eq!(pixel(&fb, 0, 0), 0);
    assert_eq!(pixel(&fb, 0, 1), 0);
    assert_eq!(pixel(&fb, 1, 1), 0xFFFF);
    assert_eq!(pixel(&fb, 3, 0), 0xFFFF);
    assert_eq!(pixel(&fb, 0, 3), 0xFFFF);
    assert_eq!(pixel(&fb, 9, 9), 0);
    assert_eq!(pixel(&fb, 9, 0), 0);
    assert_eq!(pixel(&fb, 0, 9), 0);
    assert_eq!(pixel(&fb, 8, 8), 0xFFFF);
    assert_eq!(pixel(&fb, 5, 5), 0xFFFF);
}

#[test]
fn blit_is_clipped_to_the_panel() {
    let mut fb = Framebuffer::new();
    let img = solid(4, 4, [255, 255, 255, 255]);
    fb.blit_rgba_rounded(-2, -2, 4, 4, 0, &img);
    assert_eq!(pixel(&fb, 0, 0), 0xFFFF);
    assert_eq!(pixel(&fb, 1, 1), 0xFFFF);
    assert_eq!(pixel(&fb, 2, 0), 0);
    fb.blit_rgba_rounded(238, 278, 4, 4, 0, &img);
    assert_eq!(pixel(&fb, 239, 279), 0xFFFF);
    let lit = fb.as_bytes().iter().filter(|&&b| b != 0).count();
    assert_eq!(lit, 2 * (4 + 4));
}

#[test]
fn short_image_data_skips_missing_pixels() {
    let mut fb = Framebuffer::new();
    // a 2x2 image with only three pixels' worth of bytes
    let mut img = solid(2, 2, [255, 255, 255, 255]);
    img.truncate(12);
    fb.blit_rgba_rounded(0, 0, 2, 2, 0, &img);
    assert_eq!(pixel(&fb, 0, 0), 0xFFFF);
    assert_eq!(pixel(&fb, 1, 0), 0xFFFF);
    assert_eq!(pixel(&fb, 0, 1), 0xFFFF);
    assert_eq!(pixel(&fb, 1, 1), 0);
}

#[test]
fn blit_leaves_outside_of_rectangle_untouched() {
    let mut fb = Framebuffer::new();
    for x in 0..240 {
        fb.draw_pixel(x, 50, 0x5555);
    }
    let img = solid(20, 20, [10, 20, 30, 200]);
    fb.blit_rgba_rounded(100, 40, 20, 20, 5, &img);
    for x in 0..240usize {
        if !(100..120).contains(&x) {
            assert_eq!(pixel(&fb, x, 50), 0x5555);
        }
    }
}

#[test]
fn blitting_an_image_without_partial_alpha_twice_changes_nothing() {
    let mut rgba = solid(6, 5, [200, 30, 90, 255]);
    for k in (3..rgba.len()).step_by(8) {
        rgba[k] = 0;
    }
    let mut once = Framebuffer::new();
    once.draw_pixel(12, 11, 0xABCD);
    let mut twice = Framebuffer::new();
    twice.draw_pixel(12, 11, 0xABCD);
    once.blit_rgba_rounded(10, 10, 6, 5, 2, &rgba);
    twice.blit_rgba_rounded(10, 10, 6, 5, 2, &rgba);
    twice.blit_rgba_rounded(10, 10, 6, 5, 2, &rgba);
    assert_eq!(once.as_bytes(), twice.as_bytes());
}

#[test]
fn opaque_blit_pixel_matches_draw_pixel() {
    let rgba = solid(3, 3, [250, 128, 7, 255]);
    let mut blitted = Framebuffer::new();
    blitted.draw_pixel(21, 31, 0x0F0F);
    blitted.blit_rgba_rounded(20, 30, 3, 3, 0, &rgba);
    let mut drawn = Framebuffer::new();
    drawn.draw_pixel(21, 31, 0x0F0F);
    let word = ((250u16 & 0xF8) << 8) | ((128u16 & 0xFC) << 3) | (7u16 >> 3);
    drawn.draw_pixel(21, 31, word);
    let i = (31 * 240 + 21) * 2;
    assert_eq!(blitted.as_bytes()[i], drawn.as_bytes()[i]);
    assert_eq!(blitted.as_bytes()[i + 1], drawn.as_bytes()[i + 1]);
    assert_eq!(pixel(&blitted, 21, 31), word);
}

#[test]
fn fill_paints_every_pixel_whatever_was_there() {
    let mut a = Framebuffer::new();
    a.draw_pixel(5, 5, 0x1234);
    a.blit_rgba_rounded(0, 0, 4, 4, 0, &solid(4, 4, [9, 9, 9, 255]));
    let mut b = Framebuffer::new();
    a.fill(0xF81F);
    b.fill(0xF81F);
    assert_eq!(a.as_bytes(), b.as_bytes());
    assert_eq!(pixel(&a, 0, 0), 0xF81F);
    assert_eq!(pixel(&a, 239, 279), 0xF81F);
    assert!(a.as_bytes().chunks(2).all(|p| p == [0xF8, 0x1F]));
}
