use whisplay_launcher::status::{local_time, wifi_state, WifiState};

#[test]
fn wifi_without_interface_is_unknown() {
    assert_eq!(wifi_state(None), WifiState::Unknown);
}

#[test]
fn wifi_up_with_newline_is_connected() {
    assert_eq!(wifi_state(Some("up\n")), WifiState::Connected);
}

#[test]
fn wifi_up_with_surrounding_space_is_connected() {
    assert_eq!(wifi_state(Some(" \t up \r\n")), WifiState::Connected);
}

#[test]
fn wifi_down_is_disconnected() {
    assert_eq!(wifi_state(Some("down\n")), WifiState::Disconnected);
    assert_eq!(wifi_state(Some("dormant")), WifiState::Disconnected);
    assert_eq!(wifi_state(Some("")), WifiState::Disconnected);
    assert_eq!(wifi_state(Some("u p")), WifiState::Disconnected);
    assert_eq!(wifi_state(Some("upp")), WifiState::Disconnected);
    assert_eq!(wifi_state(Some("UP")), WifiState::Disconnected);
}

#[test]
fn wifi_unicode_white_space_is_trimmed() {
    assert_eq!(wifi_state(Some("\u{3000}up\u{a0}")), WifiState::Connected);
}

#[test]
fn clock_pads_to_two_digits() {
    assert_eq!(local_time(9, 5), "09:05");
    assert_eq!(local_time(0, 0), "00:00");
    assert_eq!(local_time(23, 59), "23:59");
    assert_eq!(local_time(12, 10), "12:10");
}

#[test]
fn clock_matches_format_for_odd_fields() {
    for (h, m) in [(-1, 5), (100, 7), (-12, -3), (i32::MIN, i32::MAX), (7, 60)] {
        assert_eq!(local_time(h, m), format!("{:02}:{:02}", h, m));
    }
}

#[test]
fn clock_matches_format_over_a_day() {
    for h in 0..24 {
        for m in 0..60 {
            assert_eq!(local_time(h, m), format!("{:02}:{:02}", h, m));
        }
    }
}
