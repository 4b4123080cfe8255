use whisplay_launcher::display::{frame_window, init_sequence, set_window, PanelStep, LCD_H, LCD_W};

#[test]
fn panel_size() {
    assert_eq!((LCD_W, LCD_H), (240, 280));
}

#[test]
fn init_starts_with_reset_pulse_and_ends_display_on() {
    let s = init_sequence();
    assert_eq!(s.len(), 22);
    assert_eq!(s[0], PanelStep::Reset { high: true });
    assert_eq!(s[1], PanelStep::Pause { ms: 100 });
    assert_eq!(s[2], PanelStep::Reset { high: false });
    assert_eq!(s[5], PanelStep::Pause { ms: 120 });
    assert_eq!(s[6], PanelStep::Command { cmd: 0x11, data: vec![] });
    assert_eq!(s[8], PanelStep::Command { cmd: 0x36, data: vec![0xC0] });
    assert_eq!(s[9], PanelStep::Command { cmd: 0x3A, data: vec![0x05] });
    assert_eq!(
        s[18],
        PanelStep::Command {
            cmd: 0xE0,
            data: vec![0xD0, 0x08, 0x0E, 0x09, 0x09, 0x05, 0x31, 0x33, 0x48, 0x17, 0x14, 0x15, 0x31, 0x34]
        }
    );
    assert_eq!(s[21], PanelStep::Command { cmd: 0x29, data: vec![] });
}

#[test]
fn frame_window_covers_panel_with_row_offset() {
    let w = frame_window();
    assert_eq!(
        w,
        vec![
            PanelStep::Command { cmd: 0x2A, data: vec![0x00, 0x00, 0x00, 0xEF] },
            PanelStep::Command { cmd: 0x2B, data: vec![0x00, 0x14, 0x01, 0x2B] },
            PanelStep::Command { cmd: 0x2C, data: vec![] },
        ]
    );
}

#[test]
fn window_bytes_are_big_endian() {
    let w = set_window(0x0102, 0x0304, 0x0506, 0x0708);
    assert_eq!(w[0], PanelStep::Command { cmd: 0x2A, data: vec![0x01, 0x02, 0x05, 0x06] });
    assert_eq!(w[1], PanelStep::Command { cmd: 0x2B, data: vec![0x03, 0x18, 0x07, 0x1C] });
}
