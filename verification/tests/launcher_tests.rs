use whisplay_launcher::button::ButtonEvent::{LongPress, ShortPress};
use whisplay_launcher::launcher::{menu_led, LedColor, Launcher, LoopAction};
use whisplay_launcher::status::WifiState;

fn launcher(n: usize) -> Launcher {
    Launcher::new(n, "10:00".to_string(), WifiState::Connected)
}

#[test]
fn starts_on_first_app_needing_a_draw() {
    let mut l = launcher(3);
    assert_eq!(l.selected(), 0);
    assert_eq!(l.last_time(), "10:00");
    assert_eq!(l.last_wifi(), WifiState::Connected);
    assert!(l.take_redraw());
    assert!(!l.take_redraw());
}

#[test]
fn short_press_moves_and_wraps() {
    let mut l = launcher(3);
    l.take_redraw();
    assert_eq!(l.handle_events(&vec![ShortPress], false), LoopAction::Browse(LedColor { r: 0, g: 100, b: 255 }));
    assert_eq!(l.selected(), 1);
    assert!(l.take_redraw());
    assert_eq!(l.handle_events(&vec![ShortPress, ShortPress], false), LoopAction::Browse(LedColor { r: 0, g: 100, b: 255 }));
    assert_eq!(l.selected(), 0);
}

#[test]
fn full_cycle_returns_to_start() {
    let mut l = launcher(4);
    l.handle_events(&vec![ShortPress], false);
    l.handle_events(&vec![ShortPress; 4], false);
    assert_eq!(l.selected(), 1);
}

#[test]
fn long_press_launches_selection_after_the_batch() {
    let mut l = launcher(3);
    l.take_redraw();
    assert_eq!(l.handle_events(&vec![LongPress, ShortPress], false), LoopAction::Launch(1));
    assert!(l.take_redraw());
    assert_eq!(l.handle_events(&vec![LongPress], false), LoopAction::Launch(1));
}

#[test]
fn nothing_happens_without_events() {
    let mut l = launcher(3);
    l.take_redraw();
    assert_eq!(l.handle_events(&vec![], false), LoopAction::Idle);
    assert_eq!(l.selected(), 0);
}

#[test]
fn no_apps_means_no_launch_and_no_moving() {
    let mut l = launcher(0);
    l.take_redraw();
    assert_eq!(l.handle_events(&vec![ShortPress, LongPress], false), LoopAction::Idle);
    assert_eq!(l.selected(), 0);
}

#[test]
fn disconnect_quits() {
    let mut l = launcher(3);
    assert_eq!(l.handle_events(&vec![LongPress], true), LoopAction::Quit);
    assert_eq!(l.handle_events(&vec![], true), LoopAction::Quit);
}

#[test]
fn status_change_asks_for_redraw() {
    let mut l = launcher(1);
    l.take_redraw();
    l.refresh_status("10:00".to_string(), WifiState::Connected);
    assert!(!l.take_redraw());
    l.refresh_status("10:01".to_string(), WifiState::Connected);
    assert!(l.take_redraw());
    assert_eq!(l.last_time(), "10:01");
    l.refresh_status("10:01".to_string(), WifiState::Unknown);
    assert!(l.take_redraw());
    assert_eq!(l.last_wifi(), WifiState::Unknown);
}

#[test]
fn led_colors_of_the_menu_and_of_browsing() {
    assert_eq!(menu_led(), LedColor { r: 29, g: 185, b: 84 });
    let mut l = launcher(2);
    assert_eq!(l.handle_events(&vec![], false), LoopAction::Browse(LedColor { r: 0, g: 100, b: 255 }));
}
