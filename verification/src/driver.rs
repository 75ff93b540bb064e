//! The driver: it owns the display interface, the reset control, the frame
//! and the panel's geometry.

use crate::commands;
use crate::error::{lift_interface, lift_reset, DriverError};
use crate::framebuffer::{drawn, drawn_all, in_bounds, pixel_at, window_fits, window_rows};
use crate::framebuffer::{encoded, holds_pixel, stored, Framebuffer, Pixel, Rgb};
use crate::geometry::{frame_bytes, frame_len_ok, ColorMode, DisplaySize};
use crate::init::{
    init_sequence, init_steps, plan_of, sleep_in_steps, sleep_out_steps, InitStep,
    SLEEP_SETTLE_MS,
};
use crate::interface::{
    issued, lemma_all_actions, lemma_longer_plan, lemma_next_action, progress, Action,
    ControllerInterface, DelayMs, Entry, ResetInterface,
};
use vstd::prelude::*;

verus! {

/// The number of columns that the controller addresses. A window may reach
/// up to this column whatever the panel's width is.
pub const MAX_COLUMNS: u16 = 480;

/// The message of the error for a window that is inverted or out of range.
pub const INVALID_WINDOW: &'static str = "Invalid window dimensions";

/// The message of the error for a frame whose size is not that of the panel
/// in its pixel format.
pub const WRONG_FRAME_SIZE: &'static str = "Framebuffer size does not match the display";

/// The message of the error for a window that the frame does not hold.
pub const OUT_OF_FRAME: &'static str = "Framebuffer slice out of bounds";

/// True where the window has its bounds in order, ends inside the
/// controller's columns and ends inside the panel's rows.
pub open spec fn valid_window(
    size: DisplaySize,
    x_start: u16,
    y_start: u16,
    x_end: u16,
    y_end: u16,
) -> bool {
    x_start <= x_end && y_start <= y_end && x_end < MAX_COLUMNS && y_end < size.height
}

/// Tells whether a window is valid on a panel of the given size.
pub fn window_ok(size: DisplaySize, x_start: u16, y_start: u16, x_end: u16, y_end: u16) -> (ok:
    bool)
    ensures
        ok == valid_window(size, x_start, y_start, x_end, y_end),
{
    x_start <= x_end && y_start <= y_end && x_end < MAX_COLUMNS && y_end < size.height
}

/// A 16-bit value as two bytes, the high byte first.
pub open spec fn be16(v: u16) -> Seq<u8> {
    seq![(v / 256) as u8, (v % 256) as u8]
}

/// The two calls that set the controller's window: the column range, then
/// the row range, each as start and end in two bytes.
pub open spec fn window_calls(x_start: u16, y_start: u16, x_end: u16, y_end: u16) -> Seq<
    Action,
> {
    seq![
        Action::CommandWithData(commands::CASET, be16(x_start) + be16(x_end)),
        Action::CommandWithData(commands::RASET, be16(y_start) + be16(y_end)),
    ]
}

/// What a driver asks for while it is constructed: the reset, then the
/// initialization sequence for the pixel format `color`.
pub open spec fn startup(color: ColorMode) -> Seq<Action> {
    seq![Action::Reset] + plan_of(init_steps(color))
}

/// Main driver for the RM690B0 display controller.
///
/// The driver is built for one pixel format and a frame of exactly the
/// panel's size in that format, and keeps both.
///
/// Besides what it owns, the driver keeps a journal of what it has asked of
/// its surroundings, and of what came back from each request. The journal
/// exists in proofs only. Six methods make the requests, one kind each, and
/// each writes its request and its result into the journal; nothing else
/// touches the interface, the reset control, a delay source or the journal.
pub struct Rm690b0Driver<IFACE, RST> where IFACE: ControllerInterface, RST: ResetInterface {
    interface: IFACE,
    reset: RST,
    framebuffer: Framebuffer,
    config: DisplaySize,
    mode: ColorMode,
    journal: Ghost<Seq<Entry<Action, DriverError<IFACE::Error, RST::Error>>>>,
}

impl<IFACE, RST> View for Rm690b0Driver<IFACE, RST> where
    IFACE: ControllerInterface,
    RST: ResetInterface,
 {
    type V = Seq<u8>;

    /// The bytes of the frame.
    closed spec fn view(&self) -> Seq<u8> {
        self.framebuffer@
    }
}

impl<IFACE, RST> Rm690b0Driver<IFACE, RST> where IFACE: ControllerInterface, RST: ResetInterface {
    /// What the driver has asked of the display interface, the reset control
    /// and the delay source so far, oldest first, each with its outcome.
    pub closed spec fn actions(&self) -> Seq<
        Entry<Action, DriverError<IFACE::Error, RST::Error>>,
    > {
        self.journal@
    }

    /// The pixel format of the frame, chosen when the driver was built.
    pub closed spec fn mode(&self) -> ColorMode {
        self.mode
    }

    /// True where the frame is as large as the panel in its pixel format.
    pub open spec fn full_frame(&self) -> bool {
        self@.len() == frame_bytes(self.config(), self.mode())
    }

    /// The panel's geometry.
    pub closed spec fn config(&self) -> DisplaySize {
        self.config
    }

    /// True where `self` has the frame, the geometry and the pixel format
    /// of `before`.
    pub open spec fn same_frame(&self, before: &Self) -> bool {
        &&& self@ == before@
        &&& self.config() == before.config()
        &&& self.mode() == before.mode()
    }

    /// Send a command with no data, and note it in the journal.
    fn send_command(&mut self, cmd: u8) -> (r: Result<(), DriverError<IFACE::Error, RST::Error>>)
        ensures
            final(self).actions() == old(self).actions().push(
                (Entry { asked: Action::Command(cmd), outcome: r }),
            ),
            final(self).same_frame(old(self)),
            r is Err ==> r->Err_0 is InterfaceError,
    {
        let sent = lift_interface(self.interface.send_command(cmd));
        self.journal = Ghost(
            self.journal@.push(Entry { asked: Action::Command(cmd), outcome: sent }),
        );
        sent
    }

    /// Helper to send a command with associated data parameters, and to note
    /// it in the journal.
    fn send_command_with_data(&mut self, cmd: u8, data: &[u8]) -> (r: Result<
        (),
        DriverError<IFACE::Error, RST::Error>,
    >)
        ensures
            final(self).actions() == old(self).actions().push(
                (Entry { asked: Action::CommandWithData(cmd, data@), outcome: r }),
            ),
            final(self).same_frame(old(self)),
            r is Err ==> r->Err_0 is InterfaceError,
    {
        let sent = lift_interface(self.interface.send_command_with_data(cmd, data));
        self.journal = Ghost(
            self.journal@.push(Entry { asked: Action::CommandWithData(cmd, data@), outcome: sent }),
        );
        sent
    }

    /// Sends the whole frame as one burst of pixel data, and notes it in the
    /// journal.
    fn send_frame(&mut self) -> (r: Result<(), DriverError<IFACE::Error, RST::Error>>)
        ensures
            final(self).actions() == old(self).actions().push(
                (Entry { asked: Action::Pixels(old(self)@), outcome: r }),
            ),
            final(self).same_frame(old(self)),
            r is Err ==> r->Err_0 is InterfaceError,
    {
        let sent = lift_interface(self.interface.send_pixels(self.framebuffer.as_slice()));
        self.journal = Ghost(
            self.journal@.push(Entry { asked: Action::Pixels(self.framebuffer@), outcome: sent }),
        );
        sent
    }

    /// Sends `pixels` as one burst of pixel data, and notes it in the journal.
    fn send_pixels(&mut self, pixels: &[u8]) -> (r: Result<
        (),
        DriverError<IFACE::Error, RST::Error>,
    >)
        ensures
            final(self).actions() == old(self).actions().push(
                (Entry { asked: Action::Pixels(pixels@), outcome: r }),
            ),
            final(self).same_frame(old(self)),
            r is Err ==> r->Err_0 is InterfaceError,
    {
        let sent = lift_interface(self.interface.send_pixels(pixels));
        self.journal = Ghost(
            self.journal@.push(Entry { asked: Action::Pixels(pixels@), outcome: sent }),
        );
        sent
    }

    /// Asks the delay source to wait for `ms` milliseconds, and notes it in
    /// the journal.
    fn wait<DELAY>(&mut self, delay: &mut DELAY, ms: u32) where DELAY: DelayMs
        ensures
            final(self).actions() == old(self).actions().push(
                (Entry { asked: Action::Delay(ms), outcome: Ok(()) }),
            ),
            final(self).same_frame(old(self)),
    {
        delay.delay_ms(ms);
        self.journal = Ghost(
            self.journal@.push(Entry { asked: Action::Delay(ms), outcome: Ok(()) }),
        );
    }

    /// Performs a hardware reset using the reset control, and notes it in the
    /// journal. An error of the reset control comes back wrapped.
    pub fn hard_reset(&mut self) -> (r: Result<(), DriverError<IFACE::Error, RST::Error>>)
        ensures
            final(self).actions() == old(self).actions().push(
                (Entry { asked: Action::Reset, outcome: r }),
            ),
            final(self).same_frame(old(self)),
            r is Err ==> r->Err_0 is ResetError,
    {
        let done = lift_reset(self.reset.reset());
        self.journal = Ghost(self.journal@.push(Entry { asked: Action::Reset, outcome: done }));
        done
    }

    /// Turns the display panel off.
    pub fn display_off(&mut self) -> (r: Result<(), DriverError<IFACE::Error, RST::Error>>)
        ensures
            final(self).actions() == old(self).actions().push(
                (Entry { asked: Action::Command(commands::DISPOFF), outcome: r }),
            ),
            final(self).same_frame(old(self)),
            r is Err ==> r->Err_0 is InterfaceError,
    {
        self.send_command(commands::DISPOFF)
    }

    /// Turns the display panel on.
    pub fn display_on(&mut self) -> (r: Result<(), DriverError<IFACE::Error, RST::Error>>)
        ensures
            final(self).actions() == old(self).actions().push(
                (Entry { asked: Action::Command(commands::DISPON), outcome: r }),
            ),
            final(self).same_frame(old(self)),
            r is Err ==> r->Err_0 is InterfaceError,
    {
        self.send_command(commands::DISPON)
    }

    /// Sets the Memory Data Access Control (MADCTR) register.
    pub fn set_madctr(&mut self, value: u8) -> (r: Result<
        (),
        DriverError<IFACE::Error, RST::Error>,
    >)
        ensures
            final(self).actions() == old(self).actions().push(
                (Entry {
                    asked: Action::CommandWithData(commands::MADCTR, seq![value]),
                    outcome: r,
                }),
            ),
            final(self).same_frame(old(self)),
            r is Err ==> r->Err_0 is InterfaceError,
    {
        let data: [u8; 1] = [value];
        assert(data@ =~= seq![value]);
        self.send_command_with_data(commands::MADCTR, data.as_slice())
    }

    /// Sets the display brightness, from 0x00 (dark) to 0xFF (brightest).
    pub fn set_brightness(&mut self, value: u8) -> (r: Result<
        (),
        DriverError<IFACE::Error, RST::Error>,
    >)
        ensures
            final(self).actions() == old(self).actions().push(
                (Entry {
                    asked: Action::CommandWithData(commands::WRDISBV, seq![value]),
                    outcome: r,
                }),
            ),
            final(self).same_frame(old(self)),
            r is Err ==> r->Err_0 is InterfaceError,
    {
        let data: [u8; 1] = [value];
        assert(data@ =~= seq![value]);
        self.send_command_with_data(commands::WRDISBV, data.as_slice())
    }

    /// Sets the active drawing window on the display RAM.
    ///
    /// A window that is not valid is refused before anything is sent. For a
    /// valid one the column range is sent, then the row range; the first
    /// failure of the interface ends the operation.
    pub fn set_window(&mut self, x_start: u16, y_start: u16, x_end: u16, y_end: u16) -> (r: Result<
        (),
        DriverError<IFACE::Error, RST::Error>,
    >)
        ensures
            final(self).same_frame(old(self)),
            !valid_window(old(self).config(), x_start, y_start, x_end, y_end) ==> {
                &&& r == Err::<(), DriverError<IFACE::Error, RST::Error>>(
                    DriverError::InvalidConfiguration(INVALID_WINDOW),
                )
                &&& final(self).actions() == old(self).actions()
            },
            valid_window(old(self).config(), x_start, y_start, x_end, y_end) ==> {
                &&& issued(
                    old(self).actions(),
                    window_calls(x_start, y_start, x_end, y_end),
                    final(self).actions(),
                    r,
                )
                &&& r is Err ==> r->Err_0 is InterfaceError
            },
    {
        if !window_ok(self.config, x_start, y_start, x_end, y_end) {
            return Err(DriverError::InvalidConfiguration(INVALID_WINDOW));
        }
        let ghost plan = window_calls(x_start, y_start, x_end, y_end);
        let ghost before = self.actions();
        let columns: [u8; 4] = [
            (x_start / 256) as u8,
            (x_start % 256) as u8,
            (x_end / 256) as u8,
            (x_end % 256) as u8,
        ];
        assert(columns@ =~= be16(x_start) + be16(x_end));
        let first = self.send_command_with_data(commands::CASET, columns.as_slice());
        proof {
            lemma_all_actions(before, plan, before);
            lemma_next_action(before, plan, before, 0, self.actions().last());
            assert(self.actions() =~= before.push(self.actions().last()));
        }
        if first.is_err() {
            return first;
        }
        let ghost between = self.actions();
        let rows: [u8; 4] = [
            (y_start / 256) as u8,
            (y_start % 256) as u8,
            (y_end / 256) as u8,
            (y_end % 256) as u8,
        ];
        assert(rows@ =~= be16(y_start) + be16(y_end));
        let second = self.send_command_with_data(commands::RASET, rows.as_slice());
        proof {
            lemma_next_action(before, plan, between, 1, self.actions().last());
            lemma_all_actions(before, plan, self.actions());
        }
        second
    }

    /// The actions of a flush of the whole frame `fb` on a panel of the given
    /// size: the window over the whole panel, then the frame as one burst.
    pub open spec fn flush_calls(size: DisplaySize, fb: Seq<u8>) -> Seq<Action> {
        window_calls(0, 0, (size.width - 1) as u16, (size.height - 1) as u16).push(
            Action::Pixels(fb),
        )
    }

    /// Writes the contents of the framebuffer to the display RAM.
    ///
    /// The window is set to the whole panel, then the frame is sent in its
    /// own order. A panel without pixels, or wider than the controller's
    /// columns, is refused before anything is sent.
    pub fn flush(&mut self) -> (r: Result<(), DriverError<IFACE::Error, RST::Error>>)
        ensures
            final(self).same_frame(old(self)),
            !(1 <= old(self).config().width <= MAX_COLUMNS && 1 <= old(self).config().height) ==> {
                &&& r == Err::<(), DriverError<IFACE::Error, RST::Error>>(
                    DriverError::InvalidConfiguration(INVALID_WINDOW),
                )
                &&& final(self).actions() == old(self).actions()
            },
            1 <= old(self).config().width <= MAX_COLUMNS && 1 <= old(self).config().height ==> {
                &&& issued(
                    old(self).actions(),
                    Self::flush_calls(old(self).config(), old(self)@),
                    final(self).actions(),
                    r,
                )
                &&& r is Err ==> r->Err_0 is InterfaceError
            },
    {
        if self.config.width == 0 || self.config.height == 0 {
            return Err(DriverError::InvalidConfiguration(INVALID_WINDOW));
        }
        let x_end: u16 = self.config.width - 1;
        let y_end: u16 = self.config.height - 1;
        let ghost before = self.actions();
        let ghost window = window_calls(0, 0, x_end, y_end);
        let ghost plan = Self::flush_calls(self.config, self@);
        let set = self.set_window(0, 0, x_end, y_end);
        proof {
            if valid_window(self.config, 0, 0, x_end, y_end) {
                lemma_longer_plan(before, window, plan, self.actions(), set);
            }
        }
        if set.is_err() {
            return set;
        }
        let ghost between = self.actions();
        let sent = self.send_frame();
        proof {
            lemma_next_action(before, plan, between, 2, self.actions().last());
            lemma_all_actions(before, plan, self.actions());
        }
        sent
    }

    /// The actions of a flush of a window: the window itself, then its packed
    /// rows as one burst.
    pub open spec fn partial_flush_calls(
        x_start: u16,
        y_start: u16,
        x_end: u16,
        y_end: u16,
        packed: Seq<u8>,
    ) -> Seq<Action> {
        window_calls(x_start, y_start, x_end, y_end).push(Action::Pixels(packed))
    }

    /// Writes one window of the framebuffer to the display RAM.
    ///
    /// The window is checked first, then its rows are gathered from the
    /// frame, whose rows are as wide as the panel in the format `color`. A
    /// window that is not valid, or that the frame does not hold, is refused
    /// before anything is sent. Then the window is set and the gathered rows
    /// are sent as one burst, top row first.
    pub fn partial_flush(
        &mut self,
        x_start: u16,
        x_end: u16,
        y_start: u16,
        y_end: u16,
        color: ColorMode,
    ) -> (r: Result<(), DriverError<IFACE::Error, RST::Error>>)
        ensures
            final(self).same_frame(old(self)),
            !valid_window(old(self).config(), x_start, y_start, x_end, y_end) ==> {
                &&& r == Err::<(), DriverError<IFACE::Error, RST::Error>>(
                    DriverError::InvalidConfiguration(INVALID_WINDOW),
                )
                &&& final(self).actions() == old(self).actions()
            },
            valid_window(old(self).config(), x_start, y_start, x_end, y_end) && !window_fits(
                old(self)@.len() as int,
                old(self).config().width as int,
                color.pixel_bytes() as int,
                x_start as int,
                x_end as int,
                y_end as int,
            ) ==> {
                &&& r == Err::<(), DriverError<IFACE::Error, RST::Error>>(
                    DriverError::InvalidConfiguration(OUT_OF_FRAME),
                )
                &&& final(self).actions() == old(self).actions()
            },
            valid_window(old(self).config(), x_start, y_start, x_end, y_end) && window_fits(
                old(self)@.len() as int,
                old(self).config().width as int,
                color.pixel_bytes() as int,
                x_start as int,
                x_end as int,
                y_end as int,
            ) ==> {
                &&& issued(
                    old(self).actions(),
                    Self::partial_flush_calls(
                        x_start,
                        y_start,
                        x_end,
                        y_end,
                        window_rows(
                            old(self)@,
                            old(self).config().width as int,
                            color.pixel_bytes() as int,
                            x_start as int,
                            x_end as int,
                            y_start as int,
                            (y_end - y_start + 1) as nat,
                        ),
                    ),
                    final(self).actions(),
                    r,
                )
                &&& r is Err ==> r->Err_0 is InterfaceError
            },
    {
        if !window_ok(self.config, x_start, y_start, x_end, y_end) {
            return Err(DriverError::InvalidConfiguration(INVALID_WINDOW));
        }
        let packed = match self.framebuffer.pack_window(
            self.config.width,
            color,
            x_start,
            x_end,
            y_start,
            y_end,
        ) {
            Some(packed) => packed,
            None => {
                return Err(DriverError::InvalidConfiguration(OUT_OF_FRAME));
            },
        };
        let ghost before = self.actions();
        let ghost window = window_calls(x_start, y_start, x_end, y_end);
        let ghost plan = Self::partial_flush_calls(x_start, y_start, x_end, y_end, packed@);
        let set = self.set_window(x_start, y_start, x_end, y_end);
        proof {
            lemma_longer_plan(before, window, plan, self.actions(), set);
        }
        if set.is_err() {
            return set;
        }
        let ghost between = self.actions();
        let sent = self.send_pixels(packed.as_slice());
        proof {
            lemma_next_action(before, plan, between, 2, self.actions().last());
            lemma_all_actions(before, plan, self.actions());
        }
        sent
    }

    /// Runs `steps` one by one: a call goes to the display interface, a delay
    /// to `delay`. The first call that fails ends the run.
    pub fn run_steps<DELAY>(&mut self, delay: &mut DELAY, steps: &[InitStep]) -> (r: Result<
        (),
        DriverError<IFACE::Error, RST::Error>,
    >) where DELAY: DelayMs
        ensures
            final(self).same_frame(old(self)),
            issued(old(self).actions(), plan_of(steps@), final(self).actions(), r),
            r is Err ==> r->Err_0 is InterfaceError,
    {
        let ghost before = self.actions();
        let ghost entry = *self;
        let ghost plan = plan_of(steps@);
        let mut i: usize = 0;
        proof {
            lemma_all_actions(before, plan, before);
        }
        while i < steps.len()
            invariant
                i <= steps.len(),
                entry == *old(self),
                before == old(self).actions(),
                plan == plan_of(steps@),
                self.same_frame(&entry),
                progress(before, plan, self.actions(), i as int),
            decreases steps.len() - i,
        {
            let step = steps[i];
            let ghost here = self.actions();
            match step {
                InitStep::Command(cmd) => {
                    let sent = self.send_command(cmd);
                    proof {
                        lemma_next_action(before, plan, here, i as int, self.actions().last());
                    }
                    if sent.is_err() {
                        return sent;
                    }
                },
                InitStep::Write(cmd, value) => {
                    let data: [u8; 1] = [value];
                    assert(data@ =~= seq![value]);
                    let sent = self.send_command_with_data(cmd, data.as_slice());
                    proof {
                        lemma_next_action(before, plan, here, i as int, self.actions().last());
                    }
                    if sent.is_err() {
                        return sent;
                    }
                },
                InitStep::Delay(ms) => {
                    self.wait(delay, ms);
                    proof {
                        lemma_next_action(before, plan, here, i as int, self.actions().last());
                    }
                },
            }
            i = i + 1;
        }
        proof {
            lemma_all_actions(before, plan, self.actions());
        }
        Ok(())
    }

    /// Sends the essential initialization command sequence to the display,
    /// with its settle delays, for the pixel format `color`. The format of
    /// the frame stays the one that the driver was built with.
    pub fn initialize_display<DELAY>(&mut self, delay: &mut DELAY, color: ColorMode) -> (r: Result<
        (),
        DriverError<IFACE::Error, RST::Error>,
    >) where DELAY: DelayMs
        ensures
            final(self).same_frame(old(self)),
            issued(old(self).actions(), plan_of(init_steps(color)), final(self).actions(), r),
            r is Err ==> r->Err_0 is InterfaceError,
    {
        let steps = init_sequence(color);
        self.run_steps(delay, steps.as_slice())
    }

    /// Sleep Mode In (SLPIN), followed by its settle delay.
    pub fn sleep_in<DELAY>(&mut self, delay: &mut DELAY) -> (r: Result<
        (),
        DriverError<IFACE::Error, RST::Error>,
    >) where DELAY: DelayMs
        ensures
            final(self).same_frame(old(self)),
            issued(old(self).actions(), plan_of(sleep_in_steps()), final(self).actions(), r),
            r is Err ==> r->Err_0 is InterfaceError,
    {
        let steps: [InitStep; 2] = [
            InitStep::Command(commands::SLPIN),
            InitStep::Delay(SLEEP_SETTLE_MS),
        ];
        assert(steps@ =~= sleep_in_steps());
        self.run_steps(delay, steps.as_slice())
    }

    /// Sleep Out (SLPOUT), followed by its settle delay.
    pub fn sleep_out<DELAY>(&mut self, delay: &mut DELAY) -> (r: Result<
        (),
        DriverError<IFACE::Error, RST::Error>,
    >) where DELAY: DelayMs
        ensures
            final(self).same_frame(old(self)),
            issued(old(self).actions(), plan_of(sleep_out_steps()), final(self).actions(), r),
            r is Err ==> r->Err_0 is InterfaceError,
    {
        let steps: [InitStep; 2] = [
            InitStep::Command(commands::SLPOUT),
            InitStep::Delay(SLEEP_SETTLE_MS),
        ];
        assert(steps@ =~= sleep_out_steps());
        self.run_steps(delay, steps.as_slice())
    }

    /// Resets the controller and initializes it for the pixel format `color`.
    fn bring_up<DELAY>(
        interface: IFACE,
        reset: RST,
        color: ColorMode,
        config: DisplaySize,
        delay: &mut DELAY,
        framebuffer: Framebuffer,
    ) -> (r: Result<Self, DriverError<IFACE::Error, RST::Error>>) where DELAY: DelayMs
        ensures
            r is Ok ==> {
                &&& r->Ok_0@ == framebuffer@
                &&& r->Ok_0.config() == config
                &&& r->Ok_0.mode() == color
                &&& issued(Seq::empty(), startup(color), r->Ok_0.actions(), Ok(()))
            },
            r is Err ==> !(r->Err_0 is InvalidConfiguration),
    {
        let mut driver = Rm690b0Driver {
            interface,
            reset,
            framebuffer,
            config,
            mode: color,
            journal: Ghost(Seq::empty()),
        };
        match driver.hard_reset() {
            Ok(()) => {},
            Err(e) => {
                return Err(e);
            },
        }
        let ghost first = driver.actions();
        match driver.initialize_display(delay, color) {
            Ok(()) => {},
            Err(e) => {
                return Err(e);
            },
        }
        proof {
            let all = driver.actions();
            assert(all.subrange(0, 1)[0] == all[0]);
            assert(all.subrange(0, 0) =~= Seq::empty());
        }
        Ok(driver)
    }

    /// Creates a new driver instance over a static array that the caller supplies,
    /// resets the controller and initializes the display.
    ///
    /// The array has to be as large as the panel in the format `color`; any
    /// other size is refused before anything is asked of the reset control
    /// or the interface. A driver is returned only when the reset and every
    /// step of the initialization succeeded: it has then asked for the reset
    /// and for the initialization sequence, and for nothing else.
    pub fn new_static<DELAY, const N: usize>(
        interface: IFACE,
        reset: RST,
        color: ColorMode,
        config: DisplaySize,
        delay: DELAY,
        framebuffer: &'static mut [u8; N],
    ) -> (r: Result<Self, DriverError<IFACE::Error, RST::Error>>) where DELAY: DelayMs
        ensures
            N != frame_bytes(config, color) ==> r is Err && r->Err_0
                == DriverError::<IFACE::Error, RST::Error>::InvalidConfiguration(WRONG_FRAME_SIZE),
            N == frame_bytes(config, color) && r is Err ==> !(r->Err_0 is InvalidConfiguration),
            r is Ok ==> {
                &&& r->Ok_0@ == old(framebuffer)@
                &&& r->Ok_0@.len() == frame_bytes(config, color)
                &&& r->Ok_0.config() == config
                &&& r->Ok_0.mode() == color
                &&& issued(Seq::empty(), startup(color), r->Ok_0.actions(), Ok(()))
            },
    {
        if !frame_len_ok(config, color, N) {
            return Err(DriverError::InvalidConfiguration(WRONG_FRAME_SIZE));
        }
        let mut delay = delay;
        let framebuffer = Framebuffer::Static(framebuffer);
        Self::bring_up(interface, reset, color, config, &mut delay, framebuffer)
    }

    /// Creates a new driver instance with a zeroed framebuffer of `N` bytes
    /// on the heap, resets the controller and initializes the display.
    ///
    /// `N` has to be the size of the panel in the format `color`; any other
    /// size is refused before anything is asked of the reset control or the
    /// interface. A driver is returned only when the reset and every step of
    /// the initialization succeeded: it has then asked for the reset and for
    /// the initialization sequence, and for nothing else.
    pub fn new_heap<DELAY, const N: usize>(
        interface: IFACE,
        reset: RST,
        color: ColorMode,
        config: DisplaySize,
        delay: DELAY,
    ) -> (r: Result<Self, DriverError<IFACE::Error, RST::Error>>) where DELAY: DelayMs
        ensures
            N != frame_bytes(config, color) ==> r is Err && r->Err_0
                == DriverError::<IFACE::Error, RST::Error>::InvalidConfiguration(WRONG_FRAME_SIZE),
            N == frame_bytes(config, color) && r is Err ==> !(r->Err_0 is InvalidConfiguration),
            r is Ok ==> {
                &&& r->Ok_0@ == Seq::new(N as nat, |i: int| 0u8)
                &&& r->Ok_0@.len() == frame_bytes(config, color)
                &&& r->Ok_0.config() == config
                &&& r->Ok_0.mode() == color
                &&& issued(Seq::empty(), startup(color), r->Ok_0.actions(), Ok(()))
            },
    {
        if !frame_len_ok(config, color, N) {
            return Err(DriverError::InvalidConfiguration(WRONG_FRAME_SIZE));
        }
        let mut delay = delay;
        let framebuffer = Framebuffer::Heap(Box::new([0u8; N]));
        assert(framebuffer@ =~= Seq::new(N as nat, |i: int| 0u8));
        Self::bring_up(interface, reset, color, config, &mut delay, framebuffer)
    }

    /// Draws a single pixel to the internal framebuffer, in the frame's pixel
    /// format: the bytes of that pixel become the colour's bytes in that
    /// format, and no other byte changes. A coordinate outside the panel is
    /// clipped: the frame stays as it was. Nothing is sent.
    pub fn draw_pixel(&mut self, x: i32, y: i32, color: Rgb)
        ensures
            final(self)@ == drawn(
                old(self)@,
                old(self).config(),
                old(self).mode(),
                x as int,
                y as int,
                color,
            ),
            final(self)@.len() == old(self)@.len(),
            !in_bounds(old(self).config(), x as int, y as int) ==> final(self)@ == old(self)@,
            holds_pixel(old(self)@, old(self).config(), old(self).mode(), x as int, y as int)
                ==> stored(final(self)@, old(self).config(), old(self).mode(), x as int, y as int)
                == Some(encoded(color, old(self).mode())),
            final(self).actions() == old(self).actions(),
            final(self).config() == old(self).config(),
            final(self).mode() == old(self).mode(),
    {
        self.framebuffer.write_pixel(self.config, self.mode, x, y, color);
    }

    /// Draws the pixels to the internal framebuffer, in order. Nothing is
    /// sent.
    pub fn draw_iter(&mut self, pixels: &[Pixel])
        ensures
            final(self)@ == drawn_all(
                old(self)@,
                old(self).config(),
                old(self).mode(),
                pixels@,
                pixels@.len(),
            ),
            final(self)@.len() == old(self)@.len(),
            final(self).actions() == old(self).actions(),
            final(self).config() == old(self).config(),
            final(self).mode() == old(self).mode(),
    {
        let ghost entry = *self;
        let mut i: usize = 0;
        while i < pixels.len()
            invariant
                i <= pixels.len(),
                entry == *old(self),
                self@ == drawn_all(entry@, entry.config(), entry.mode(), pixels@, i as nat),
                self@.len() == entry@.len(),
                self.actions() == entry.actions(),
                self.config() == entry.config(),
                self.mode() == entry.mode(),
            decreases pixels.len() - i,
        {
            let p = pixels[i];
            self.draw_pixel(p.x, p.y, p.color);
            i = i + 1;
        }
    }

    /// Reads the colour that the frame shows at `(x, y)`, where the
    /// coordinate lies on the panel and the frame holds that pixel.
    pub fn pixel(&self, x: i32, y: i32) -> (c: Option<Rgb>)
        ensures
            c == pixel_at(self@, self.config(), self.mode(), x as int, y as int),
    {
        self.framebuffer.read_pixel(self.config, self.mode, x, y)
    }

    /// The panel's width and height in pixels.
    pub fn size(&self) -> (s: (u32, u32))
        ensures
            s.0 == self.config().width,
            s.1 == self.config().height,
    {
        (self.config.width as u32, self.config.height as u32)
    }

    /// The frame.
    pub fn framebuffer(&self) -> (fb: &Framebuffer)
        ensures
            fb@ == self@,
    {
        &self.framebuffer
    }
}

} // verus!
