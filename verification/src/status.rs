//! Status bar readings: the Wi-Fi link state and the wall clock text.

use vstd::prelude::*;

use crate::text::{slice_is, trim, trim_bounds};

verus! {

/// Link state of the wireless interface, as shown by the status bar icon.
#[derive(Clone, Copy, Debug, PartialEq, Eq, Structural)]
pub enum WifiState {
    Connected,
    Disconnected,
    Unknown,
}

/// The text "up", which the kernel writes to `operstate` for a live link.
pub open spec fn up_text() -> Seq<char> {
    seq!['u', 'p']
}

/// The Wi-Fi state for the `operstate` contents of the wireless interface:
/// `None` when no wireless interface exists or its state cannot be read.
pub open spec fn wifi_state_of(operstate: Option<Seq<char>>) -> WifiState {
    match operstate {
        None => WifiState::Unknown,
        Some(s) => if trim(s) == up_text() {
            WifiState::Connected
        } else {
            WifiState::Disconnected
        },
    }
}

/// Classifies the wireless link from the contents of its `operstate` file.
///
/// `operstate` is `None` when the system has no wireless interface or its
/// state could not be read (and always on machines without one): the state
/// is then `Unknown`. Otherwise the link is `Connected` exactly when the
/// contents, trimmed of white space, are `up`.
pub fn wifi_state(operstate: Option<&str>) -> (state: WifiState)
    ensures
        state == wifi_state_of(
            match operstate {
                Some(s) => Some(s@),
                None => None,
            },
        ),
{
    match operstate {
        None => WifiState::Unknown,
        Some(s) => {
            let (i, j) = trim_bounds(s);
            proof {
                reveal_strlit("up");
                assert("up"@ =~= up_text());
            }
            if slice_is(s, i, j, "up") {
                WifiState::Connected
            } else {
                WifiState::Disconnected
            }
        },
    }
}

/// The decimal digit character for `d < 10`.
pub open spec fn digit_char(d: nat) -> char {
    if d == 0 { '0' }
    else if d == 1 { '1' }
    else if d == 2 { '2' }
    else if d == 3 { '3' }
    else if d == 4 { '4' }
    else if d == 5 { '5' }
    else if d == 6 { '6' }
    else if d == 7 { '7' }
    else if d == 8 { '8' }
    else { '9' }
}

/// The decimal representation of `n`, without leading zeros.
pub open spec fn decimal(n: nat) -> Seq<char>
    decreases n,
{
    if n < 10 {
        seq![digit_char(n)]
    } else {
        decimal(n / 10) + seq![digit_char(n % 10)]
    }
}

/// `n` written as `format!("{:02}", n)` writes it: zero-padded to two
/// characters, a minus sign in front of a negative number.
pub open spec fn two_digits(n: int) -> Seq<char> {
    if n < 0 {
        seq!['-'] + decimal((-n) as nat)
    } else if n < 10 {
        seq!['0'] + decimal(n as nat)
    } else {
        decimal(n as nat)
    }
}

/// The status bar clock: `HH:MM`.
pub open spec fn clock_text(hour: int, minute: int) -> Seq<char> {
    two_digits(hour) + seq![':'] + two_digits(minute)
}

fn digit_str(d: u64) -> (s: &'static str)
    requires
        d < 10,
    ensures
        s@ == seq![digit_char(d as nat)],
{
    proof {
        reveal_strlit("0");
        reveal_strlit("1");
        reveal_strlit("2");
        reveal_strlit("3");
        reveal_strlit("4");
        reveal_strlit("5");
        reveal_strlit("6");
        reveal_strlit("7");
        reveal_strlit("8");
        reveal_strlit("9");
    }
    let s = if d == 0 { "0" }
    else if d == 1 { "1" }
    else if d == 2 { "2" }
    else if d == 3 { "3" }
    else if d == 4 { "4" }
    else if d == 5 { "5" }
    else if d == 6 { "6" }
    else if d == 7 { "7" }
    else if d == 8 { "8" }
    else { "9" };
    assert(s@ =~= seq![digit_char(d as nat)]);
    s
}

/// Appends the decimal digits of `n` to `out`.
fn push_decimal(out: &mut String, n: u64)
    ensures
        final(out)@ == old(out)@ + decimal(n as nat),
    decreases n,
{
    if n < 10 {
        out.append(digit_str(n));
    } else {
        push_decimal(out, n / 10);
        out.append(digit_str(n % 10));
        assert(old(out)@ + decimal(n as nat) =~= old(out)@ + decimal((n / 10) as nat) + seq![
            digit_char((n % 10) as nat),
        ]);
    }
}

/// Appends `n` zero-padded to two characters.
fn push_two_digits(out: &mut String, n: i32)
    ensures
        final(out)@ == old(out)@ + two_digits(n as int),
{
    proof {
        reveal_strlit("-");
        reveal_strlit("0");
    }
    if n < 0 {
        out.append("-");
        let m: i64 = n as i64;
        push_decimal(out, (-m) as u64);
        assert(old(out)@ + two_digits(n as int) =~= old(out)@ + seq!['-'] + decimal((-m) as nat));
    } else {
        if n < 10 {
            out.append("0");
            push_decimal(out, n as u64);
            assert(old(out)@ + two_digits(n as int) =~= old(out)@ + seq!['0'] + decimal(n as nat));
        } else {
            push_decimal(out, n as u64);
        }
    }
}

/// The clock text of the status bar for the broken-down local time
/// (`tm_hour`, `tm_min`): both fields zero-padded to two digits and joined
/// by a colon, such as `09:05`.
pub fn local_time(hour: i32, minute: i32) -> (text: String)
    ensures
        text@ == clock_text(hour as int, minute as int),
{
    proof {
        reveal_strlit(":");
    }
    let mut text = String::new();
    push_two_digits(&mut text, hour);
    text.append(":");
    push_two_digits(&mut text, minute);
    assert(text@ =~= clock_text(hour as int, minute as int));
    text
}

} // verus!
