//! The sequence that brings the controller from reset to a lit panel, and the
//! shorter sequences of the power modes, as tables of steps.

use crate::commands;
use crate::geometry::ColorMode;
use crate::interface::{issued, Action, Entry};
use vstd::prelude::*;

verus! {

/// One step of a command sequence.
#[derive(Debug, Clone, Copy, PartialEq, Eq)]
pub enum InitStep {
    /// Send a command byte without parameters.
    Command(u8),
    /// Send a command byte with one parameter byte.
    Write(u8, u8),
    /// Wait for a number of milliseconds.
    Delay(u32),
}

/// Settle time after waking the controller during initialization.
pub const WAKE_SETTLE_MS: u32 = 120;

/// Settle time after turning the display on during initialization.
pub const DISPLAY_ON_SETTLE_MS: u32 = 20;

/// Settle time after entering or leaving sleep.
pub const SLEEP_SETTLE_MS: u32 = 5;

impl InitStep {
    /// What this step asks of the driver's surroundings.
    pub open spec fn action(&self) -> Action {
        match self {
            InitStep::Command(cmd) => Action::Command(*cmd),
            InitStep::Write(cmd, value) => Action::CommandWithData(*cmd, seq![*value]),
            InitStep::Delay(ms) => Action::Delay(*ms),
        }
    }
}

/// What `steps` ask of the driver's surroundings, in order.
pub open spec fn plan_of(steps: Seq<InitStep>) -> Seq<Action> {
    Seq::new(steps.len(), |i: int| steps[i].action())
}

/// The initialization sequence for the pixel format `color`: wake the
/// controller and let it settle, write the manufacturer's registers, set the
/// pixel format, switch the tearing-effect output off, turn the display on and let
/// it settle, and set the brightness to its maximum.
pub open spec fn init_steps(color: ColorMode) -> Seq<InitStep> {
    seq![
        InitStep::Command(commands::SLPOUT),
        InitStep::Delay(WAKE_SETTLE_MS),
        InitStep::Write(0xFE, 0x20),
        InitStep::Write(0x26, 0x0A),
        InitStep::Write(0x24, 0x80),
        InitStep::Write(0x5A, 0x51),
        InitStep::Write(0x5B, 0x2E),
        InitStep::Write(0xFE, 0x00),
        InitStep::Write(commands::COLMOD, color.format_code()),
        InitStep::Command(commands::TEOFF),
        InitStep::Command(commands::DISPON),
        InitStep::Delay(DISPLAY_ON_SETTLE_MS),
        InitStep::Write(commands::WRDISBV, 0xFF),
    ]
}

/// The sequence that puts the controller to sleep.
pub open spec fn sleep_in_steps() -> Seq<InitStep> {
    seq![InitStep::Command(commands::SLPIN), InitStep::Delay(SLEEP_SETTLE_MS)]
}

/// The sequence that wakes the controller.
pub open spec fn sleep_out_steps() -> Seq<InitStep> {
    seq![InitStep::Command(commands::SLPOUT), InitStep::Delay(SLEEP_SETTLE_MS)]
}

/// Builds the initialization sequence for the pixel format `color`.
pub fn init_sequence(color: ColorMode) -> (steps: Vec<InitStep>)
    ensures
        steps@ == init_steps(color),
{
    let mut steps: Vec<InitStep> = Vec::new();
    steps.push(InitStep::Command(commands::SLPOUT));
    steps.push(InitStep::Delay(WAKE_SETTLE_MS));
    steps.push(InitStep::Write(0xFE, 0x20));
    steps.push(InitStep::Write(0x26, 0x0A));
    steps.push(InitStep::Write(0x24, 0x80));
    steps.push(InitStep::Write(0x5A, 0x51));
    steps.push(InitStep::Write(0x5B, 0x2E));
    steps.push(InitStep::Write(0xFE, 0x00));
    steps.push(InitStep::Write(commands::COLMOD, color.pixel_format()));
    steps.push(InitStep::Command(commands::TEOFF));
    steps.push(InitStep::Command(commands::DISPON));
    steps.push(InitStep::Delay(DISPLAY_ON_SETTLE_MS));
    steps.push(InitStep::Write(commands::WRDISBV, 0xFF));
    assert(steps@ =~= init_steps(color));
    steps
}

/// The initialization asks for these thirteen actions, in this order: eleven
/// calls on the display interface and, behind the wake-up and behind the
/// display-on command, the two settle delays. Between the pixel format and
/// the display-on command stands the command that switches the
/// tearing-effect output off.
pub proof fn lemma_init_order(color: ColorMode)
    ensures
        plan_of(init_steps(color)) == seq![
            Action::Command(commands::SLPOUT),
            Action::Delay(WAKE_SETTLE_MS),
            Action::CommandWithData(0xFE, seq![0x20u8]),
            Action::CommandWithData(0x26, seq![0x0Au8]),
            Action::CommandWithData(0x24, seq![0x80u8]),
            Action::CommandWithData(0x5A, seq![0x51u8]),
            Action::CommandWithData(0x5B, seq![0x2Eu8]),
            Action::CommandWithData(0xFE, seq![0x00u8]),
            Action::CommandWithData(commands::COLMOD, seq![color.format_code()]),
            Action::Command(commands::TEOFF),
            Action::Command(commands::DISPON),
            Action::Delay(DISPLAY_ON_SETTLE_MS),
            Action::CommandWithData(commands::WRDISBV, seq![0xFFu8]),
        ],
{
    let expected = seq![
        Action::Command(commands::SLPOUT),
        Action::Delay(WAKE_SETTLE_MS),
        Action::CommandWithData(0xFE, seq![0x20u8]),
        Action::CommandWithData(0x26, seq![0x0Au8]),
        Action::CommandWithData(0x24, seq![0x80u8]),
        Action::CommandWithData(0x5A, seq![0x51u8]),
        Action::CommandWithData(0x5B, seq![0x2Eu8]),
        Action::CommandWithData(0xFE, seq![0x00u8]),
        Action::CommandWithData(commands::COLMOD, seq![color.format_code()]),
        Action::Command(commands::TEOFF),
        Action::Command(commands::DISPON),
        Action::Delay(DISPLAY_ON_SETTLE_MS),
        Action::CommandWithData(commands::WRDISBV, seq![0xFFu8]),
    ];
    assert(plan_of(init_steps(color)) =~= expected);
}

/// An initialization that fails has stopped at a call on the display
/// interface: the journal then ends with that call, and the error is what
/// came back from it; every step before it was taken and accepted, and none
/// of the steps behind it was taken.
pub proof fn lemma_failed_init_stops<E>(
    color: ColorMode,
    before: Seq<Entry<Action, E>>,
    after: Seq<Entry<Action, E>>,
    r: Result<(), E>,
)
    requires
        r is Err,
        issued(before, plan_of(init_steps(color)), after, r),
    ensures
        before.len() < after.len() <= before.len() + 13,
        after.last().outcome == r,
        after.last().asked.can_fail(),
        forall|j: int|
            before.len() <= j < after.len() ==> (#[trigger] after[j]).asked == plan_of(
                init_steps(color),
            )[j - before.len()],
        forall|j: int| before.len() <= j < after.len() - 1 ==> (#[trigger] after[j]).outcome is Ok,
{
    assert(after[after.len() - 1] == after.last());
}

} // verus!
