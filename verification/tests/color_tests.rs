use whisplay_launcher::color::{rgb565, rgb888_of_pixel};

#[test]
fn packs_known_colors() {
    assert_eq!(rgb565(0, 0, 0), 0x0000);
    assert_eq!(rgb565(255, 255, 255), 0xFFFF);
    assert_eq!(rgb565(255, 0, 0), 0xF800);
    assert_eq!(rgb565(0, 255, 0), 0x07E0);
    assert_eq!(rgb565(0, 0, 255), 0x001F);
    assert_eq!(rgb565(29, 185, 84), 7626);
}

#[test]
fn expands_known_pixel() {
    assert_eq!(rgb888_of_pixel(0x1D, 0xCA), [24, 184, 80]);
    assert_eq!(rgb888_of_pixel(0xFF, 0xFF), [248, 252, 248]);
}

#[test]
fn expand_after_pack_keeps_top_bits() {
    for r in (0..=255u8).step_by(7) {
        for g in (0..=255u8).step_by(5) {
            for b in (0..=255u8).step_by(3) {
                let v = rgb565(r, g, b);
                let e = rgb888_of_pixel((v >> 8) as u8, v as u8);
                assert_eq!(e, [r & 0xF8, g & 0xFC, b & 0xF8]);
            }
        }
    }
}

#[test]
fn pack_after_expand_is_identity() {
    for v in 0..=u16::MAX {
        let e = rgb888_of_pixel((v >> 8) as u8, v as u8);
        assert_eq!(rgb565(e[0], e[1], e[2]), v);
    }
}
