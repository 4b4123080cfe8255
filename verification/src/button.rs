//! The HAT's push button: telling short presses from long ones on the
//! polled pin level, and the keyboard stand-in used without the HAT.

use vstd::prelude::*;

use crate::text::{slice_is, trim, trim_bounds};

verus! {

/// What a completed press of the button means to the launcher.
#[derive(Clone, Copy, Debug, PartialEq, Eq, Structural)]
pub enum ButtonEvent {
    ShortPress,
    LongPress,
}

/// A press held for more than this (in milliseconds) is a long press; a
/// press of exactly this length is still a short one.
pub const LONG_PRESS_MS: u64 = 500;

/// Level changes closer than this (in milliseconds) to the last accepted
/// one are contact bounce and wait for a later poll.
pub const DEBOUNCE_MS: u64 = 50;

/// Nanoseconds in a millisecond.
pub const NANOS_PER_MS: u64 = 1_000_000;

/// Nanoseconds from `earlier` to `later`, zero when `later` is not after
/// `earlier`.
pub open spec fn nanos_between(earlier: u64, later: u64) -> int {
    if later > earlier {
        later - earlier
    } else {
        0
    }
}

/// Whole milliseconds from `earlier` to `later` (nanosecond timestamps),
/// zero when `later` is not after `earlier`: what
/// `later.duration_since(earlier).as_millis()` gives for two `Instant`s.
pub open spec fn millis_between(earlier: u64, later: u64) -> int {
    if later > earlier {
        (later - earlier) / NANOS_PER_MS as int
    } else {
        0
    }
}

/// The state the button poller keeps between polls: the last accepted pin
/// level, when the current press began (if the pin went high while being
/// watched), and when the last level change was accepted. Timestamps are
/// nanoseconds on a monotonic clock.
#[derive(Clone, Copy, Debug, PartialEq, Eq, Structural)]
pub struct ButtonTracker {
    pub was_high: bool,
    pub press_time: Option<u64>,
    pub last_edge: u64,
}

/// The classification of a press held from `pressed` to `released`: long
/// when held for more than `LONG_PRESS_MS`, short otherwise.
pub open spec fn press_kind(pressed: u64, released: u64) -> ButtonEvent {
    if nanos_between(pressed, released) > LONG_PRESS_MS * NANOS_PER_MS {
        ButtonEvent::LongPress
    } else {
        ButtonEvent::ShortPress
    }
}

/// Whether a poll that reads level `is_high` at time `now` is accepted as a
/// level change: the level differs from the last accepted one, and the last
/// accepted change is at least the debounce interval ago.
pub open spec fn accepts_edge(t: ButtonTracker, is_high: bool, now: u64) -> bool {
    is_high != t.was_high && millis_between(t.last_edge, now) >= DEBOUNCE_MS
}

/// The tracker after a poll that reads `is_high` at time `now`.
pub open spec fn after_poll(t: ButtonTracker, is_high: bool, now: u64) -> ButtonTracker {
    if !accepts_edge(t, is_high, now) {
        t
    } else if is_high {
        ButtonTracker { was_high: true, press_time: Some(now), last_edge: now }
    } else {
        ButtonTracker { was_high: false, press_time: None, last_edge: now }
    }
}

/// The event a poll reports: a press completes when an accepted change
/// takes the pin low while a press is being timed.
pub open spec fn poll_event(t: ButtonTracker, is_high: bool, now: u64) -> Option<ButtonEvent> {
    if accepts_edge(t, is_high, now) && !is_high {
        match t.press_time {
            Some(p) => Some(press_kind(p, now)),
            None => None,
        }
    } else {
        None
    }
}

impl ButtonTracker {
    /// The tracker when watching starts at time `now` with the pin at
    /// level `initial_high`: no press is being timed.
    pub fn new(initial_high: bool, now: u64) -> (t: ButtonTracker)
        ensures
            t == (ButtonTracker { was_high: initial_high, press_time: None, last_edge: now }),
    {
        ButtonTracker { was_high: initial_high, press_time: None, last_edge: now }
    }

    /// Takes one poll of the pin, reading level `is_high` at time `now`,
    /// and returns the completed press, if any. A rising edge starts timing
    /// a press, a falling edge ends it; changes within the debounce interval
    /// of the last accepted one are left for a later poll.
    pub fn poll(&mut self, is_high: bool, now: u64) -> (ev: Option<ButtonEvent>)
        ensures
            *final(self) == after_poll(*old(self), is_high, now),
            ev == poll_event(*old(self), is_high, now),
    {
        if is_high == self.was_high {
            return None;
        }
        let since_edge: u64 = now.saturating_sub(self.last_edge) / NANOS_PER_MS;
        if since_edge < DEBOUNCE_MS {
            return None;
        }
        self.last_edge = now;
        let mut ev: Option<ButtonEvent> = None;
        if is_high && !self.was_high {
            self.press_time = Some(now);
        } else if !is_high && self.was_high {
            match self.press_time {
                Some(t) => {
                    self.press_time = None;
                    let held: u64 = now.saturating_sub(t);
                    ev = Some(
                        if held > LONG_PRESS_MS * NANOS_PER_MS {
                            ButtonEvent::LongPress
                        } else {
                            ButtonEvent::ShortPress
                        },
                    );
                },
                None => {},
            }
        }
        self.was_high = is_high;
        ev
    }
}

/// A press is only being timed while the pin is high: polling keeps this
/// true of every tracker that starts with no press timed.
pub proof fn lemma_poll_keeps_press_while_high(t: ButtonTracker, is_high: bool, now: u64)
    requires
        t.press_time is Some ==> t.was_high,
    ensures
        after_poll(t, is_high, now).press_time is Some ==> after_poll(t, is_high, now).was_high,
{
}

/// A poll that sees no level change, or one within the debounce interval,
/// changes nothing and reports nothing.
pub proof fn lemma_bounce_is_ignored(t: ButtonTracker, is_high: bool, now: u64)
    requires
        is_high == t.was_high || millis_between(t.last_edge, now) < DEBOUNCE_MS,
    ensures
        after_poll(t, is_high, now) == t,
        poll_event(t, is_high, now) is None,
{
}

/// A press reported by a poll was timed from a rising edge and ends on this
/// accepted falling edge; it is long exactly when held for more than
/// `LONG_PRESS_MS`, and the poller is idle and low afterwards.
pub proof fn lemma_press_reported_on_release(t: ButtonTracker, is_high: bool, now: u64)
    requires
        poll_event(t, is_high, now) is Some,
    ensures
        !is_high,
        t.was_high,
        t.press_time is Some,
        poll_event(t, is_high, now) == Some(
            if nanos_between(t.press_time->0, now) > LONG_PRESS_MS * NANOS_PER_MS {
                ButtonEvent::LongPress
            } else {
                ButtonEvent::ShortPress
            },
        ),
        after_poll(t, is_high, now) == (ButtonTracker {
            was_high: false,
            press_time: None,
            last_edge: now,
        }),
{
}

/// What a line typed on the keyboard stand-in means, trimmed of white
/// space: `q` or `Q` quits (`None`), `l` or `L` is a long press, anything
/// else a short press.
pub open spec fn headless_input_of(line: Seq<char>) -> Option<ButtonEvent> {
    let t = trim(line);
    if t == seq!['q'] || t == seq!['Q'] {
        None
    } else if t == seq!['l'] || t == seq!['L'] {
        Some(ButtonEvent::LongPress)
    } else {
        Some(ButtonEvent::ShortPress)
    }
}

/// The button event for a line typed on the keyboard stand-in, or `None`
/// for the line that stops it.
pub fn headless_input(line: &str) -> (ev: Option<ButtonEvent>)
    ensures
        ev == headless_input_of(line@),
{
    let (i, j) = trim_bounds(line);
    proof {
        reveal_strlit("q");
        reveal_strlit("Q");
        reveal_strlit("l");
        reveal_strlit("L");
        assert("q"@ =~= seq!['q']);
        assert("Q"@ =~= seq!['Q']);
        assert("l"@ =~= seq!['l']);
        assert("L"@ =~= seq!['L']);
    }
    if slice_is(line, i, j, "q") || slice_is(line, i, j, "Q") {
        None
    } else if slice_is(line, i, j, "l") || slice_is(line, i, j, "L") {
        Some(ButtonEvent::LongPress)
    } else {
        Some(ButtonEvent::ShortPress)
    }
}

} // verus!
