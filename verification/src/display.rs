//! The ST7789 panel of the Whisplay HAT: the command stream that brings it
//! up and the address window a frame is written to.

use vstd::prelude::*;

verus! {

/// Panel width in pixels.
pub const LCD_W: u32 = 240;

/// Panel height in pixels.
pub const LCD_H: u32 = 280;

/// The visible area starts this many rows into the controller's memory.
pub const Y_OFFSET: u16 = 20;

/// One step of driving the panel: a level on the reset line, a pause, or
/// a command byte followed by its parameter bytes (`D`: `Vec<u8>` when run,
/// `Seq<u8>` in specifications).
#[derive(Debug, PartialEq)]
pub enum PanelStep<D> {
    Reset { high: bool },
    Pause { ms: u64 },
    Command { cmd: u8, data: D },
}

/// A panel step with its parameter bytes as a sequence.
pub type StepView = PanelStep<Seq<u8>>;

impl View for PanelStep<Vec<u8>> {
    type V = StepView;

    open spec fn view(&self) -> StepView {
        match *self {
            PanelStep::Reset { high } => PanelStep::Reset { high },
            PanelStep::Pause { ms } => PanelStep::Pause { ms },
            PanelStep::Command { cmd, data } => PanelStep::Command { cmd, data: data@ },
        }
    }
}

/// The steps `steps` with their parameters as sequences.
pub open spec fn step_views(steps: Seq<PanelStep<Vec<u8>>>) -> Seq<StepView> {
    steps.map_values(|s: PanelStep<Vec<u8>>| s@)
}

/// A command step.
pub open spec fn command(cmd: u8, data: Seq<u8>) -> StepView {
    PanelStep::Command { cmd, data }
}

/// Bring-up of the panel: a reset pulse, sleep out, then memory access
/// control (rotated 180 degrees), 16-bit color, porch, gate, VCOM and
/// power settings, the two gamma tables, display inversion and display on.
pub open spec fn init_steps() -> Seq<StepView> {
    seq![
        PanelStep::Reset { high: true },
        PanelStep::Pause { ms: 100 },
        PanelStep::Reset { high: false },
        PanelStep::Pause { ms: 100 },
        PanelStep::Reset { high: true },
        PanelStep::Pause { ms: 120 },
        command(0x11, seq![]),
        PanelStep::Pause { ms: 120 },
        command(0x36, seq![0xC0]),
        command(0x3A, seq![0x05]),
        command(0xB2, seq![0x0C, 0x0C, 0x00, 0x33, 0x33]),
        command(0xB7, seq![0x35]),
        command(0xBB, seq![0x32]),
        command(0xC2, seq![0x01]),
        command(0xC3, seq![0x15]),
        command(0xC4, seq![0x20]),
        command(0xC6, seq![0x0F]),
        command(0xD0, seq![0xA4, 0xA1]),
        command(
            0xE0,
            seq![0xD0, 0x08, 0x0E, 0x09, 0x09, 0x05, 0x31, 0x33, 0x48, 0x17, 0x14, 0x15, 0x31, 0x34],
        ),
        command(
            0xE1,
            seq![0xD0, 0x08, 0x0E, 0x09, 0x09, 0x15, 0x31, 0x33, 0x48, 0x17, 0x14, 0x15, 0x31, 0x34],
        ),
        command(0x21, seq![]),
        command(0x29, seq![]),
    ]
}

fn step(steps: &mut Vec<PanelStep<Vec<u8>>>, s: PanelStep<Vec<u8>>)
    ensures
        step_views(final(steps)@) == step_views(old(steps)@).push(s@),
{
    let ghost before = steps@;
    steps.push(s);
    assert(step_views(steps@) =~= step_views(before).push(s@));
}

/// The steps that bring the panel up (see `init_steps`). The IPS panel of
/// the HAT shows true colors only with display inversion on: the
/// inversion-on command (0x21, no parameters) comes right before the last
/// step, display on (0x29, no parameters), and inversion off (0x20) is
/// never sent.
pub fn init_sequence() -> (steps: Vec<PanelStep<Vec<u8>>>)
    ensures
        step_views(steps@) == init_steps(),
        steps.len() == 22,
        steps@[20]@ == (PanelStep::<Seq<u8>>::Command { cmd: 0x21, data: Seq::empty() }),
        steps@[21]@ == (PanelStep::<Seq<u8>>::Command { cmd: 0x29, data: Seq::empty() }),
        forall|k: int| 0 <= k < steps.len() ==> !(#[trigger] steps@[k]@ matches PanelStep::Command {
            cmd: 0x20,
            ..
        }),
{
    let mut s: Vec<PanelStep<Vec<u8>>> = Vec::new();
    step(&mut s, PanelStep::Reset { high: true });
    step(&mut s, PanelStep::Pause { ms: 100 });
    step(&mut s, PanelStep::Reset { high: false });
    step(&mut s, PanelStep::Pause { ms: 100 });
    step(&mut s, PanelStep::Reset { high: true });
    step(&mut s, PanelStep::Pause { ms: 120 });
    step(&mut s, PanelStep::Command { cmd: 0x11, data: Vec::new() });
    step(&mut s, PanelStep::Pause { ms: 120 });
    let d: Vec<u8> = vec![0xC0];
    assert(d@ =~= seq![0xC0]);
    step(&mut s, PanelStep::Command { cmd: 0x36, data: d });
    let d: Vec<u8> = vec![0x05];
    assert(d@ =~= seq![0x05]);
    step(&mut s, PanelStep::Command { cmd: 0x3A, data: d });
    let d: Vec<u8> = vec![0x0C, 0x0C, 0x00, 0x33, 0x33];
    assert(d@ =~= seq![0x0C, 0x0C, 0x00, 0x33, 0x33]);
    step(&mut s, PanelStep::Command { cmd: 0xB2, data: d });
    let d: Vec<u8> = vec![0x35];
    assert(d@ =~= seq![0x35]);
    step(&mut s, PanelStep::Command { cmd: 0xB7, data: d });
    let d: Vec<u8> = vec![0x32];
    assert(d@ =~= seq![0x32]);
    step(&mut s, PanelStep::Command { cmd: 0xBB, data: d });
    let d: Vec<u8> = vec![0x01];
    assert(d@ =~= seq![0x01]);
    step(&mut s, PanelStep::Command { cmd: 0xC2, data: d });
    let d: Vec<u8> = vec![0x15];
    assert(d@ =~= seq![0x15]);
    step(&mut s, PanelStep::Command { cmd: 0xC3, data: d });
    let d: Vec<u8> = vec![0x20];
    assert(d@ =~= seq![0x20]);
    step(&mut s, PanelStep::Command { cmd: 0xC4, data: d });
    let d: Vec<u8> = vec![0x0F];
    assert(d@ =~= seq![0x0F]);
    step(&mut s, PanelStep::Command { cmd: 0xC6, data: d });
    let d: Vec<u8> = vec![0xA4, 0xA1];
    assert(d@ =~= seq![0xA4, 0xA1]);
    step(&mut s, PanelStep::Command { cmd: 0xD0, data: d });
    let d: Vec<u8> = vec![0xD0, 0x08, 0x0E, 0x09, 0x09, 0x05, 0x31, 0x33, 0x48, 0x17, 0x14, 0x15, 0x31, 0x34];
    assert(d@ =~= seq![0xD0, 0x08, 0x0E, 0x09, 0x09, 0x05, 0x31, 0x33, 0x48, 0x17, 0x14, 0x15, 0x31, 0x34]);
    step(&mut s, PanelStep::Command { cmd: 0xE0, data: d });
    let d: Vec<u8> = vec![0xD0, 0x08, 0x0E, 0x09, 0x09, 0x15, 0x31, 0x33, 0x48, 0x17, 0x14, 0x15, 0x31, 0x34];
    assert(d@ =~= seq![0xD0, 0x08, 0x0E, 0x09, 0x09, 0x15, 0x31, 0x33, 0x48, 0x17, 0x14, 0x15, 0x31, 0x34]);
    step(&mut s, PanelStep::Command { cmd: 0xE1, data: d });
    step(&mut s, PanelStep::Command { cmd: 0x21, data: Vec::new() });
    step(&mut s, PanelStep::Command { cmd: 0x29, data: Vec::new() });
    assert(step_views(s@) =~= init_steps());
    proof {
        lemma_init_inverts_then_turns_on();
        assert forall|k: int| 0 <= k < s.len() implies !(#[trigger] s@[k]@ matches PanelStep::Command {
            cmd: 0x20,
            ..
        }) by {
            assert(s@[k]@ == step_views(s@)[k]);
        }
        assert(s@[20]@ == step_views(s@)[20]);
        assert(s@[21]@ == step_views(s@)[21]);
    }
    s
}

/// The bring-up turns display inversion on (0x21, no parameters) and then,
/// as its last step, the display (0x29, no parameters); it never sends
/// inversion off (0x20). Before them it wakes the controller (sleep out,
/// 0x11) after the reset pulse, sets the pixel format to 16-bit RGB565
/// (0x3A with 0x05), the format of the framebuffer, and the memory access
/// order to the panel's 180-degree rotation (0x36 with 0xC0).
pub proof fn lemma_init_inverts_then_turns_on()
    ensures
        init_steps().len() == 22,
        init_steps()[6] == (PanelStep::<Seq<u8>>::Command { cmd: 0x11, data: Seq::empty() }),
        init_steps()[8] == (PanelStep::<Seq<u8>>::Command { cmd: 0x36, data: seq![0xC0u8] }),
        init_steps()[9] == (PanelStep::<Seq<u8>>::Command { cmd: 0x3A, data: seq![0x05u8] }),
        init_steps()[20] == (PanelStep::<Seq<u8>>::Command { cmd: 0x21, data: Seq::empty() }),
        init_steps()[21] == (PanelStep::<Seq<u8>>::Command { cmd: 0x29, data: Seq::empty() }),
        forall|k: int| 0 <= k < init_steps().len() ==> !(#[trigger] init_steps()[k] matches PanelStep::Command {
            cmd: 0x20,
            ..
        }),
{
    let s = init_steps();
    assert(s[6] == (PanelStep::<Seq<u8>>::Command { cmd: 0x11, data: Seq::empty() }));
    assert(s[8] == (PanelStep::<Seq<u8>>::Command { cmd: 0x36, data: seq![0xC0u8] }));
    assert(s[9] == (PanelStep::<Seq<u8>>::Command { cmd: 0x3A, data: seq![0x05u8] }));
    assert(s[20] == (PanelStep::<Seq<u8>>::Command { cmd: 0x21, data: Seq::empty() }));
    assert(s[21] == (PanelStep::<Seq<u8>>::Command { cmd: 0x29, data: Seq::empty() }));
    assert forall|k: int| 0 <= k < s.len() implies !(#[trigger] s[k] matches PanelStep::Command {
        cmd: 0x20,
        ..
    }) by {
        if k == 0 { assert(s[0] is Reset); }
        else if k == 1 { assert(s[1] is Pause); }
        else if k == 2 { assert(s[2] is Reset); }
        else if k == 3 { assert(s[3] is Pause); }
        else if k == 4 { assert(s[4] is Reset); }
        else if k == 5 { assert(s[5] is Pause); }
        else if k == 6 { assert(s[6]->cmd == 0x11); }
        else if k == 7 { assert(s[7] is Pause); }
        else if k == 8 { assert(s[8]->cmd == 0x36); }
        else if k == 9 { assert(s[9]->cmd == 0x3A); }
        else if k == 10 { assert(s[10]->cmd == 0xB2); }
        else if k == 11 { assert(s[11]->cmd == 0xB7); }
        else if k == 12 { assert(s[12]->cmd == 0xBB); }
        else if k == 13 { assert(s[13]->cmd == 0xC2); }
        else if k == 14 { assert(s[14]->cmd == 0xC3); }
        else if k == 15 { assert(s[15]->cmd == 0xC4); }
        else if k == 16 { assert(s[16]->cmd == 0xC6); }
        else if k == 17 { assert(s[17]->cmd == 0xD0); }
        else if k == 18 { assert(s[18]->cmd == 0xE0); }
        else if k == 19 { assert(s[19]->cmd == 0xE1); }
        else if k == 20 { assert(s[20]->cmd == 0x21); }
        else { assert(s[21]->cmd == 0x29); }
    }
}

/// The big-endian bytes of a pair of 16-bit coordinates.
pub open spec fn coordinate_pair(a: int, b: int) -> Seq<u8> {
    seq![(a / 256) as u8, (a % 256) as u8, (b / 256) as u8, (b % 256) as u8]
}

/// The commands that open the address window from `(x0, y0)` to
/// `(x1, y1)` (inclusive) for a pixel write: column range, row range
/// shifted by the panel's row offset, then memory write.
pub open spec fn window_steps(x0: u16, y0: u16, x1: u16, y1: u16) -> Seq<StepView> {
    seq![
        command(0x2A, coordinate_pair(x0 as int, x1 as int)),
        command(0x2B, coordinate_pair(y0 + Y_OFFSET, y1 + Y_OFFSET)),
        command(0x2C, seq![]),
    ]
}

fn coordinate_bytes(a: u16, b: u16) -> (v: Vec<u8>)
    ensures
        v@ == coordinate_pair(a as int, b as int),
{
    let a_hi: u8 = (a >> 8) as u8;
    let a_lo: u8 = a as u8;
    let b_hi: u8 = (b >> 8) as u8;
    let b_lo: u8 = b as u8;
    assert(a_hi == a / 256 && a_lo == a % 256) by (bit_vector)
        requires
            a_hi == (a >> 8) as u8,
            a_lo == a as u8,
    ;
    assert(b_hi == b / 256 && b_lo == b % 256) by (bit_vector)
        requires
            b_hi == (b >> 8) as u8,
            b_lo == b as u8,
    ;
    let v = vec![a_hi, a_lo, b_hi, b_lo];
    assert(v@ =~= coordinate_pair(a as int, b as int));
    v
}

/// The commands that open the address window from `(x0, y0)` to
/// `(x1, y1)` (see `window_steps`).
pub fn set_window(x0: u16, y0: u16, x1: u16, y1: u16) -> (steps: Vec<PanelStep<Vec<u8>>>)
    requires
        y0 + Y_OFFSET <= u16::MAX,
        y1 + Y_OFFSET <= u16::MAX,
    ensures
        step_views(steps@) == window_steps(x0, y0, x1, y1),
{
    let mut s: Vec<PanelStep<Vec<u8>>> = Vec::new();
    step(&mut s, PanelStep::Command { cmd: 0x2A, data: coordinate_bytes(x0, x1) });
    step(&mut s, PanelStep::Command { cmd: 0x2B, data: coordinate_bytes(y0 + Y_OFFSET, y1 + Y_OFFSET) });
    step(&mut s, PanelStep::Command { cmd: 0x2C, data: Vec::new() });
    assert(step_views(s@) =~= window_steps(x0, y0, x1, y1));
    s
}

/// The commands that open the whole panel for a frame.
pub fn frame_window() -> (steps: Vec<PanelStep<Vec<u8>>>)
    ensures
        step_views(steps@) == window_steps(0, 0, (LCD_W - 1) as u16, (LCD_H - 1) as u16),
{
    set_window(0, 0, (LCD_W - 1) as u16, (LCD_H - 1) as u16)
}

} // verus!
