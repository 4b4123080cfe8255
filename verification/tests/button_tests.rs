use whisplay_launcher::button::{headless_input, ButtonEvent, ButtonTracker};

const MS: u64 = 1_000_000;

#[test]
fn short_press_is_reported_on_release() {
    let mut t = ButtonTracker::new(false, 0);
    assert_eq!(t.poll(false, 10 * MS), None);
    assert_eq!(t.poll(true, 100 * MS), None);
    assert_eq!(t.press_time, Some(100 * MS));
    assert_eq!(t.poll(true, 150 * MS), None);
    assert_eq!(t.poll(false, 300 * MS), Some(ButtonEvent::ShortPress));
    assert_eq!(t, ButtonTracker { was_high: false, press_time: None, last_edge: 300 * MS });
}

#[test]
fn long_press_only_after_more_than_half_a_second() {
    let mut t = ButtonTracker::new(false, 0);
    t.poll(true, 100 * MS);
    assert_eq!(t.poll(false, 600 * MS + 1), Some(ButtonEvent::LongPress));
    let mut t = ButtonTracker::new(false, 0);
    t.poll(true, 100 * MS);
    assert_eq!(t.poll(false, 600 * MS), Some(ButtonEvent::ShortPress));
    let mut t = ButtonTracker::new(false, 0);
    t.poll(true, 100 * MS);
    assert_eq!(t.poll(false, 600 * MS - 1), Some(ButtonEvent::ShortPress));
    let mut t = ButtonTracker::new(false, 0);
    t.poll(true, 100 * MS);
    assert_eq!(t.poll(false, 700 * MS), Some(ButtonEvent::LongPress));
}

#[test]
fn bounce_within_debounce_is_ignored() {
    let mut t = ButtonTracker::new(false, 0);
    t.poll(true, 100 * MS);
    let before = t;
    assert_eq!(t.poll(false, 120 * MS), None);
    assert_eq!(t, before);
    assert_eq!(t.poll(false, 150 * MS - 1), None);
    assert_eq!(t, before);
    assert_eq!(t.poll(false, 150 * MS), Some(ButtonEvent::ShortPress));
}

#[test]
fn release_of_a_press_held_at_start_reports_nothing() {
    let mut t = ButtonTracker::new(true, 0);
    assert_eq!(t.poll(false, 100 * MS), None);
    assert!(!t.was_high);
    assert_eq!(t.poll(true, 200 * MS), None);
    assert_eq!(t.poll(false, 900 * MS), Some(ButtonEvent::LongPress));
}

#[test]
fn clock_going_backwards_counts_as_no_time() {
    let mut t = ButtonTracker::new(false, 500 * MS);
    assert_eq!(t.poll(true, 400 * MS), None);
    assert!(!t.was_high);
}

#[test]
fn headless_lines() {
    assert_eq!(headless_input("q"), None);
    assert_eq!(headless_input(" Q \n"), None);
    assert_eq!(headless_input("l"), Some(ButtonEvent::LongPress));
    assert_eq!(headless_input("L\r\n"), Some(ButtonEvent::LongPress));
    assert_eq!(headless_input(""), Some(ButtonEvent::ShortPress));
    assert_eq!(headless_input("x"), Some(ButtonEvent::ShortPress));
    assert_eq!(headless_input("quit"), Some(ButtonEvent::ShortPress));
    assert_eq!(headless_input("ll"), Some(ButtonEvent::ShortPress));
}
