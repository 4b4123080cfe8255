//! The launcher's menu loop, as decisions on plain state: which app is
//! selected, whether the screen needs drawing, and what a batch of button
//! events asks for. The program around it waits for the events, draws,
//! drives the LED and runs the chosen app.

use vstd::prelude::*;

use crate::button::ButtonEvent;
use crate::status::WifiState;

verus! {

/// What the loop does after a batch of button events.
#[derive(Clone, Copy, Debug, PartialEq, Eq, Structural)]
pub enum LoopAction {
    /// The button is gone: shut the launcher down.
    Quit,
    /// Show the splash of app `i`, release the hardware and run the app.
    Launch(usize),
    /// The selection moved: light the LED in the given color (blue) until
    /// the menu is drawn again.
    Browse(LedColor),
    /// Nothing to do.
    Idle,
}

/// A color of the RGB LED, eight bits per channel.
#[derive(Clone, Copy, Debug, PartialEq, Eq, Structural)]
pub struct LedColor {
    pub r: u8,
    pub g: u8,
    pub b: u8,
}

/// The LED color while the menu is shown: the launcher's green accent.
pub open spec fn menu_led_color() -> LedColor {
    LedColor { r: 29, g: 185, b: 84 }
}

/// The LED color while the selection is moving: blue.
pub open spec fn browse_led_color() -> LedColor {
    LedColor { r: 0, g: 100, b: 255 }
}

/// The LED color while the menu is shown (the launcher's green accent); it
/// is lit when the launcher starts and whenever the menu has been drawn.
pub fn menu_led() -> (c: LedColor)
    ensures
        c == menu_led_color(),
{
    LedColor { r: 29, g: 185, b: 84 }
}

/// The state of the menu loop, as the specifications see it.
pub struct LauncherView {
    pub app_count: nat,
    pub selected: nat,
    pub needs_redraw: bool,
    pub last_time: Seq<char>,
    pub last_wifi: WifiState,
}

/// The state the menu loop keeps: the number of apps, the selected one,
/// whether the menu must be drawn again, and the status bar it shows.
pub struct Launcher {
    app_count: usize,
    selected: usize,
    needs_redraw: bool,
    last_time: String,
    last_wifi: WifiState,
}

impl View for Launcher {
    type V = LauncherView;

    closed spec fn view(&self) -> LauncherView {
        LauncherView {
            app_count: self.app_count as nat,
            selected: self.selected as nat,
            needs_redraw: self.needs_redraw,
            last_time: self.last_time@,
            last_wifi: self.last_wifi,
        }
    }
}

/// Whether the selection names an app (it stays 0 with no apps).
pub open spec fn selection_valid(v: LauncherView) -> bool {
    if v.app_count > 0 {
        v.selected < v.app_count
    } else {
        v.selected == 0
    }
}

/// Number of short presses among `events`.
pub open spec fn short_presses(events: Seq<ButtonEvent>) -> nat
    decreases events.len(),
{
    if events.len() == 0 {
        0
    } else {
        short_presses(events.drop_last()) + if events.last() == ButtonEvent::ShortPress {
            1nat
        } else {
            0nat
        }
    }
}

/// Whether `events` hold a long press.
pub open spec fn has_long_press(events: Seq<ButtonEvent>) -> bool {
    exists|i: int| 0 <= i < events.len() && events[i] == ButtonEvent::LongPress
}

/// The selection after `k` short presses from `selected` among `n` apps:
/// each press moves to the next app, wrapping around after the last.
pub open spec fn selection_after(selected: nat, n: nat, k: nat) -> nat {
    if n > 0 {
        ((selected + k) % n) as nat
    } else {
        selected
    }
}

/// The loop state after handling `events`.
pub open spec fn after_events(v: LauncherView, events: Seq<ButtonEvent>, disconnected: bool) -> LauncherView {
    let moved = v.app_count > 0 && short_presses(events) > 0;
    let launching = !disconnected && has_long_press(events) && v.app_count > 0;
    LauncherView {
        selected: selection_after(v.selected, v.app_count, short_presses(events)),
        needs_redraw: v.needs_redraw || moved || launching,
        ..v
    }
}

/// What the loop does after handling `events`: quit when the button is
/// gone; launch the app selected after the batch when it held a long
/// press and there are apps; light the LED blue for browsing when the menu
/// needs drawing; nothing otherwise.
pub open spec fn action_after(v: LauncherView, events: Seq<ButtonEvent>, disconnected: bool) -> LoopAction {
    if disconnected {
        LoopAction::Quit
    } else if has_long_press(events) && v.app_count > 0 {
        LoopAction::Launch(selection_after(v.selected, v.app_count, short_presses(events)) as usize)
    } else if v.needs_redraw || (v.app_count > 0 && short_presses(events) > 0) {
        LoopAction::Browse(browse_led_color())
    } else {
        LoopAction::Idle
    }
}

impl Launcher {
    /// The selection always names an app (or is 0 with no apps).
    #[verifier::type_invariant]
    closed spec fn selection_names_an_app(self) -> bool {
        selection_valid(self@)
    }

    /// The loop state at start-up for `app_count` apps and the first status
    /// reading: the first app selected, the menu not drawn yet.
    pub fn new(app_count: usize, time: String, wifi: WifiState) -> (l: Launcher)
        ensures
            l@ == (LauncherView {
                app_count: app_count as nat,
                selected: 0,
                needs_redraw: true,
                last_time: time@,
                last_wifi: wifi,
            }),
    {
        Launcher { app_count, selected: 0, needs_redraw: true, last_time: time, last_wifi: wifi }
    }

    /// Index of the selected app.
    pub fn selected(&self) -> (i: usize)
        ensures
            i == self@.selected,
            selection_valid(self@),
    {
        proof {
            use_type_invariant(self);
        }
        self.selected
    }

    /// The clock text the menu shows.
    pub fn last_time(&self) -> (t: &str)
        ensures
            t@ == self@.last_time,
    {
        self.last_time.as_str()
    }

    /// The Wi-Fi state the menu shows.
    pub fn last_wifi(&self) -> (w: WifiState)
        ensures
            w == self@.last_wifi,
    {
        self.last_wifi
    }

    /// Takes a new status reading: when the clock text or the Wi-Fi state
    /// differs from what the menu shows, the menu shows the new reading and
    /// must be drawn again; otherwise nothing changes.
    pub fn refresh_status(&mut self, time: String, wifi: WifiState)
        ensures
            if time@ != old(self)@.last_time || wifi != old(self)@.last_wifi {
                final(self)@ == (LauncherView {
                    last_time: time@,
                    last_wifi: wifi,
                    needs_redraw: true,
                    ..old(self)@
                })
            } else {
                final(self)@ == old(self)@
            },
    {
        proof {
            use_type_invariant(&*self);
        }
        if time != self.last_time || wifi != self.last_wifi {
            self.last_time = time;
            self.last_wifi = wifi;
            self.needs_redraw = true;
        }
    }

    /// Whether the menu must be drawn now; the menu counts as drawn
    /// afterwards.
    pub fn take_redraw(&mut self) -> (redraw: bool)
        ensures
            redraw == old(self)@.needs_redraw,
            final(self)@ == (LauncherView { needs_redraw: false, ..old(self)@ }),
    {
        proof {
            use_type_invariant(&*self);
        }
        let redraw = self.needs_redraw;
        self.needs_redraw = false;
        redraw
    }

    /// Handles a batch of button events, in order, and says what the loop
    /// does next: each short press selects the next app (wrapping around),
    /// a long press asks to launch the app selected once the batch is done,
    /// and `disconnected` (the button's channel is closed) ends the loop.
    /// The menu is drawn again after the selection moves or an app returns.
    pub fn handle_events(&mut self, events: &Vec<ButtonEvent>, disconnected: bool) -> (action:
        LoopAction)
        ensures
            final(self)@ == after_events(old(self)@, events@, disconnected),
            action == action_after(old(self)@, events@, disconnected),
            selection_valid(final(self)@),
            action matches LoopAction::Launch(i) ==> {
                &&& final(self)@.needs_redraw
                &&& i == final(self)@.selected
                &&& i < final(self)@.app_count
            },
    {
        proof {
            use_type_invariant(&*self);
        }
        let ghost start = self@;
        let mut launch = false;
        let mut i: usize = 0;
        proof {
            assert(events@.subrange(0, 0) =~= Seq::<ButtonEvent>::empty());
            if start.app_count > 0 {
                vstd::arithmetic::div_mod::lemma_small_mod(start.selected, start.app_count);
            }
        }
        while i < events.len()
            invariant
                i <= events.len(),
                self.app_count == start.app_count,
                self.last_time@ == start.last_time,
                self.last_wifi == start.last_wifi,
                selection_valid(self@),
                self.selected == selection_after(
                    start.selected,
                    start.app_count,
                    short_presses(events@.subrange(0, i as int)),
                ),
                self.needs_redraw == (start.needs_redraw || (start.app_count > 0 && short_presses(
                    events@.subrange(0, i as int),
                ) > 0)),
                launch == has_long_press(events@.subrange(0, i as int)),
                start.app_count > 0 ==> start.selected < start.app_count,
            decreases events.len() - i,
        {
            let ghost prefix = events@.subrange(0, i as int);
            let ghost next = events@.subrange(0, i + 1);
            assert(next.drop_last() =~= prefix);
            match events[i] {
                ButtonEvent::ShortPress => {
                    if self.app_count > 0 {
                        proof {
                            lemma_next_selection(
                                start.selected,
                                start.app_count,
                                short_presses(prefix),
                            );
                        }
                        self.selected = (self.selected + 1) % self.app_count;
                        self.needs_redraw = true;
                    }
                },
                ButtonEvent::LongPress => {
                    launch = true;
                },
            }
            proof {
                if has_long_press(next) && !has_long_press(prefix) {
                    let j = choose|j: int| 0 <= j < next.len() && next[j] == ButtonEvent::LongPress;
                    assert(j == i);
                }
                if has_long_press(prefix) {
                    let j = choose|j: int| 0 <= j < prefix.len() && prefix[j] == ButtonEvent::LongPress;
                    assert(next[j] == ButtonEvent::LongPress);
                }
                if events@[i as int] == ButtonEvent::LongPress {
                    assert(next[i as int] == ButtonEvent::LongPress);
                }
            }
            i = i + 1;
        }
        assert(events@.subrange(0, events.len() as int) =~= events@);
        if disconnected {
            return LoopAction::Quit;
        }
        if launch && self.app_count > 0 {
            self.needs_redraw = true;
            proof {
                lemma_launch_leaves_menu_to_redraw(start, events@, disconnected);
            }
            return LoopAction::Launch(self.selected);
        }
        if self.needs_redraw {
            LoopAction::Browse(LedColor { r: 0, g: 100, b: 255 })
        } else {
            LoopAction::Idle
        }
    }
}

/// A batch that launches an app launches the app selected once the batch
/// is handled, an app of the registry, and leaves the menu to be drawn
/// again: the panel shows the menu when the app returns.
pub proof fn lemma_launch_leaves_menu_to_redraw(
    v: LauncherView,
    events: Seq<ButtonEvent>,
    disconnected: bool,
)
    requires
        selection_valid(v),
        v.app_count <= usize::MAX,
    ensures
        action_after(v, events, disconnected) matches LoopAction::Launch(i) ==> {
            &&& after_events(v, events, disconnected).needs_redraw
            &&& i == after_events(v, events, disconnected).selected
            &&& i < v.app_count
        },
{
    if v.app_count > 0 {
        let n = v.app_count;
        let k = short_presses(events);
        assert(selection_after(v.selected, n, k) < n) by {
            vstd::arithmetic::div_mod::lemma_mod_bound((v.selected + k) as int, n as int);
        }
    }
}

/// One more press moves the selection to the next app.
proof fn lemma_next_selection(selected: nat, n: nat, k: nat)
    requires
        n > 0,
    ensures
        (selection_after(selected, n, k) + 1) % n == selection_after(selected, n, k + 1),
{
    vstd::arithmetic::div_mod::lemma_add_mod_noop((selected + k) as int, 1, n as int);
    if n == 1 {
        assert((selection_after(selected, n, k) + 1) % 1 == 0);
        assert(((selected + k + 1) as int) % 1 == 0);
    } else {
        vstd::arithmetic::div_mod::lemma_small_mod(1, n);
    }
}

/// Pressing the button once per app brings the selection back to the app
/// it started on.
pub proof fn lemma_full_cycle_returns(selected: nat, n: nat)
    requires
        selected < n,
    ensures
        selection_after(selected, n, n) == selected,
{
    vstd::arithmetic::div_mod::lemma_mod_add_multiples_vanish(selected as int, n as int);
    vstd::arithmetic::div_mod::lemma_small_mod(selected, n);
}

/// A batch without short presses leaves the selection where it was.
pub proof fn lemma_no_short_press_keeps_selection(
    v: LauncherView,
    events: Seq<ButtonEvent>,
    disconnected: bool,
)
    requires
        selection_valid(v),
        short_presses(events) == 0,
    ensures
        after_events(v, events, disconnected).selected == v.selected,
{
    if v.app_count > 0 {
        vstd::arithmetic::div_mod::lemma_small_mod(v.selected, v.app_count);
    }
}

} // verus!
