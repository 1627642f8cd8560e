//! The driver of the 7.5 inch panel (V2), 800 by 480 pixels, black and white.
//!
//! The driver decides what is sent to the panel and in which order; the
//! caller carries it out. Each operation ([`Epd7in5::update_frame`],
//! [`Epd7in5::set_lut`], ...) queues its steps. [`Epd7in5::step`] hands them
//! out one at a time, polls the busy line where the panel needs time, and
//! keeps track of the waveform that the panel refreshes with. Where the
//! hardware fails, [`Epd7in5::abort`] drops what is left.

use vstd::prelude::*;
use std::collections::VecDeque;
use crate::buffer_len_of;
use crate::color::Color;
use crate::graphics::Display;
use crate::interface::{Action, ActionView, Event, Step, StepView, busy_reading, is_busy};
use crate::traits::RefreshLut;
use self::command::Command;

pub mod command;

verus! {

/// Pixels in one row of the panel.
pub const WIDTH: u32 = 800;

/// Rows of the panel.
pub const HEIGHT: u32 = 480;

/// The colour of the background until another one is set.
pub const DEFAULT_BACKGROUND_COLOR: Color = Color::Black;

/// The busy line of this panel is low while the panel is busy.
pub const IS_BUSY_LOW: bool = true;

/// Microseconds between two polls of the busy line where the caller names
/// no other interval.
pub const DEFAULT_DELAY_US: u32 = 10_000;

/// A framebuffer for the whole panel.
pub type Display7in5 = Display<WIDTH, HEIGHT, false, 48000, Color>;

/// The driver as specifications see it.
pub struct DriverState {
    /// The colour of the background.
    pub color: Color,
    /// The waveform that the panel refreshes with, as far as the steps that
    /// were handed out tell.
    pub refresh: RefreshLut,
    /// Microseconds between two polls of the busy line; 0 for none.
    pub delay_us: u32,
    /// What is left to do, the next step first.
    pub queued: Seq<StepView>,
    /// Whether [`Action::ReadBusy`] was handed out last, so that the reading
    /// of the busy line is due.
    pub polling: bool,
}

impl DriverState {
    /// The state with `steps` queued behind what is queued already.
    pub open spec fn queue(self, steps: Seq<StepView>) -> DriverState {
        DriverState { queued: self.queued + steps, ..self }
    }

    /// The waveform that the panel will refresh with once everything queued
    /// has been carried out.
    pub open spec fn lut_ahead(self) -> RefreshLut {
        lut_after(self.queued, self.refresh)
    }
}

/// The waveform that a panel refreshing with `refresh` will refresh with once
/// `queued` has been carried out: the one of the last record, if there is any.
pub open spec fn lut_after(queued: Seq<StepView>, refresh: RefreshLut) -> RefreshLut
    decreases queued.len(),
{
    if queued.len() == 0 {
        refresh
    } else {
        match queued.last() {
            StepView::Record(lut) => lut,
            StepView::Act(_) => lut_after(queued.drop_last(), refresh),
        }
    }
}

/// The steps that send a command byte: the data/command line goes low, and
/// the byte is written.
pub open spec fn cmd_steps(command: Command) -> Seq<StepView> {
    seq![
        StepView::Act(ActionView::SetDataCommand(false)),
        StepView::Act(ActionView::Write(seq![command.spec_address()])),
    ]
}

/// The steps that send the data of a command: the data/command line goes
/// high, and the data are written in one block.
pub open spec fn data_steps(data: Seq<u8>) -> Seq<StepView> {
    seq![StepView::Act(ActionView::SetDataCommand(true)), StepView::Act(ActionView::Write(data))]
}

/// The steps that send a command with its data.
pub open spec fn cmd_with_data_steps(command: Command, data: Seq<u8>) -> Seq<StepView> {
    cmd_steps(command) + data_steps(data)
}

/// The steps of one poll of the busy line: the status command, the pause, and
/// the reading of the line.
pub open spec fn wait_steps(delay_us: u32) -> Seq<StepView> {
    cmd_steps(Command::GetStatus) + (if delay_us > 0 {
        seq![StepView::Act(ActionView::DelayUs(delay_us))]
    } else {
        seq![]
    }) + seq![StepView::Act(ActionView::ReadBusy)]
}

/// The steps of a reset: the reset line is held high for 10 ms, low for 2 ms,
/// and high again for 200 ms before anything else is sent.
pub open spec fn reset_steps() -> Seq<StepView> {
    seq![
        StepView::Act(ActionView::SetReset(true)),
        StepView::Act(ActionView::DelayUs(10_000)),
        StepView::Act(ActionView::SetReset(false)),
        StepView::Act(ActionView::DelayUs(2_000)),
        StepView::Act(ActionView::SetReset(true)),
        StepView::Act(ActionView::DelayUs(200_000)),
    ]
}

/// The booster timing that the panel starts with.
pub open spec fn booster_default() -> Seq<u8> {
    seq![0x17u8, 0x17u8, 0x28u8, 0x17u8]
}

/// The booster timing of the quick waveform.
pub open spec fn booster_quick() -> Seq<u8> {
    seq![0x27u8, 0x27u8, 0x18u8, 0x17u8]
}

/// The steps that bring the panel up: the reset, the booster timing, power
/// on and the wait for it, the panel setting for black and white, and the
/// data interval and polarity.
pub open spec fn init_steps(delay_us: u32) -> Seq<StepView> {
    reset_steps() + cmd_with_data_steps(Command::BoosterSoftStart, booster_default()) + cmd_steps(
        Command::PowerOn,
    ) + seq![StepView::Act(ActionView::DelayUs(100_000))] + wait_steps(delay_us)
        + cmd_with_data_steps(Command::PanelSetting, seq![0x1Fu8]) + cmd_with_data_steps(
        Command::VcomAndDataIntervalSetting,
        seq![0x29u8, 0x07u8],
    )
}

/// The steps that put the panel to sleep: power off, the wait for it, and the
/// deep sleep command with its check byte.
pub open spec fn sleep_steps(delay_us: u32) -> Seq<StepView> {
    cmd_steps(Command::PowerOff) + wait_steps(delay_us) + cmd_with_data_steps(
        Command::DeepSleep,
        seq![0xA5u8],
    )
}

/// The steps that send a whole frame.
pub open spec fn update_frame_steps(buffer: Seq<u8>) -> Seq<StepView> {
    cmd_with_data_steps(Command::DataStartTransmission2, buffer)
}

/// The steps that refresh the screen and wait until the panel is done.
pub open spec fn display_frame_steps(delay_us: u32) -> Seq<StepView> {
    cmd_steps(Command::DisplayRefresh) + wait_steps(delay_us)
}

/// The steps that fill the panel's memory with 0xFF, one byte for every eight
/// pixels, and refresh the screen.
pub open spec fn clear_frame_steps(delay_us: u32) -> Seq<StepView> {
    cmd_steps(Command::DataStartTransmission2) + data_steps(
        Seq::new((WIDTH / 8 * HEIGHT) as nat, |i: int| 0xFFu8),
    ) + display_frame_steps(delay_us)
}

/// The upper of the two low bytes of `v`.
pub open spec fn upper_byte(v: int) -> u8 {
    (v / 256 % 256) as u8
}

/// The lowest byte of `v`.
pub open spec fn lower_byte(v: int) -> u8 {
    (v % 256) as u8
}

/// The nine bytes that tell the panel the window of a partial update: the
/// first and the last column, the first and the last row, each as two bytes
/// with the upper one first, and the scan mode.
///
/// The first column is `x` brought down to a byte boundary, and the last one
/// is the last column of the byte in which a window of `width` columns from
/// there ends. The rows are taken as they are.
pub open spec fn partial_window(x: int, y: int, width: int, height: int) -> Seq<u8> {
    let x_start = x - x % 8;
    let x_last = x_start + width - 1;
    let x_end = x_last - x_last % 8 + 7;
    let y_end = y + height - 1;
    seq![
        upper_byte(x_start),
        lower_byte(x_start),
        upper_byte(x_end),
        lower_byte(x_end),
        upper_byte(y),
        lower_byte(y),
        upper_byte(y_end),
        lower_byte(y_end),
        0x01u8,
    ]
}

/// Whether a partial update can be sent: the buffer holds the window, no
/// more and no less, and the last column and the last row can be counted.
pub open spec fn partial_frame_ok(len: int, x: int, y: int, width: int, height: int) -> bool {
    &&& len == buffer_len_of(width, height)
    &&& 1 <= (x - x % 8) + width <= u32::MAX
    &&& 1 <= y + height <= u32::MAX
}

/// The steps of a partial update: enter partial mode, set the window, send the
/// pixels, leave partial mode.
pub open spec fn update_partial_frame_steps(
    buffer: Seq<u8>,
    x: int,
    y: int,
    width: int,
    height: int,
) -> Seq<StepView> {
    cmd_steps(Command::PartialIn) + cmd_with_data_steps(
        Command::PartialWindow,
        partial_window(x, y, width, height),
    ) + update_frame_steps(buffer) + cmd_steps(Command::PartialOut)
}

/// The waveform that a request stands for; no request stands for the full one.
pub open spec fn requested_lut(refresh_rate: Option<RefreshLut>) -> RefreshLut {
    match refresh_rate {
        Some(lut) => lut,
        None => RefreshLut::Full,
    }
}

/// The steps that select a waveform on a panel that refreshes with `current`.
///
/// A request for the waveform that the panel has takes no step at all. Any
/// other first puts the booster back to its default timing where the panel
/// leaves the quick waveform. The full waveform, or no request, lets the
/// panel pick the waveform by its temperature; the quick one sets the quick
/// booster timing and forces the temperature 0x5A; the partial one forces the
/// temperature 0x6E. The forced temperatures lie beyond what the panel
/// measures: its firmware reads them as numbers of waveforms. At the end the
/// new waveform is recorded.
pub open spec fn lut_steps(current: RefreshLut, refresh_rate: Option<RefreshLut>) -> Seq<StepView> {
    if refresh_rate == Some(current) {
        seq![]
    } else {
        (if current == RefreshLut::Quick {
            cmd_with_data_steps(Command::BoosterSoftStart, booster_default())
        } else {
            seq![]
        }) + (match refresh_rate {
            Some(RefreshLut::Quick) => cmd_with_data_steps(
                Command::BoosterSoftStart,
                booster_quick(),
            ) + cmd_with_data_steps(Command::CascadeSetting, seq![0x02u8]) + cmd_with_data_steps(
                Command::ForceTemperature,
                seq![0x5Au8],
            ),
            Some(RefreshLut::PartialRefresh) => cmd_with_data_steps(
                Command::CascadeSetting,
                seq![0x02u8],
            ) + cmd_with_data_steps(Command::ForceTemperature, seq![0x6Eu8]),
            _ => cmd_with_data_steps(Command::CascadeSetting, seq![0x00u8]),
        }) + seq![StepView::Record(requested_lut(refresh_rate))]
    }
}

/// The state once the records at the head of the queue have been taken in:
/// each makes its waveform the one that the panel refreshes with.
pub open spec fn settled(s: DriverState) -> DriverState
    decreases s.queued.len(),
{
    if s.queued.len() > 0 && s.queued[0] is Record {
        settled(DriverState { refresh: s.queued[0]->Record_0, queued: s.queued.drop_first(), ..s })
    } else {
        s
    }
}

/// Whether `event` is a reading of the busy line that says that the panel is
/// busy.
pub open spec fn says_busy(event: Event) -> bool {
    match event {
        Event::Busy(line_low) => busy_reading(IS_BUSY_LOW, line_low),
        Event::Done => false,
    }
}

/// The state in which the driver takes up its queue after `event`. Where the
/// reading of the busy line was due and says that the panel is busy, another
/// poll goes to the head of the queue. Any other event leaves the queue as
/// it is.
pub open spec fn resumed(s: DriverState, event: Event) -> DriverState {
    let again = s.polling && says_busy(event);
    DriverState {
        queued: if again {
            wait_steps(s.delay_us) + s.queued
        } else {
            s.queued
        },
        polling: false,
        ..s
    }
}

/// The state after `event`, and the action that the driver hands out: the
/// first action of the queue, or [`Action::Finished`] where none is left.
pub open spec fn next_step(s: DriverState, event: Event) -> (DriverState, ActionView) {
    let t = settled(resumed(s, event));
    if t.queued.len() == 0 {
        (t, ActionView::Finished)
    } else {
        (
            DriverState {
                queued: t.queued.drop_first(),
                polling: t.queued[0] == StepView::Act(ActionView::ReadBusy),
                ..t
            },
            t.queued[0]->Act_0,
        )
    }
}

/// The steps as specifications see them.
pub open spec fn steps_view(steps: Seq<Step>) -> Seq<StepView> {
    Seq::new(steps.len(), |i: int| steps[i]@)
}

/// The driver of the panel.
pub struct Epd7in5 {
    color: Color,
    refresh: RefreshLut,
    delay_us: u32,
    queue: VecDeque<Step>,
    polling: bool,
}

impl View for Epd7in5 {
    type V = DriverState;

    closed spec fn view(&self) -> DriverState {
        DriverState {
            color: self.color,
            refresh: self.refresh,
            delay_us: self.delay_us,
            queued: steps_view(self.queue@),
            polling: self.polling,
        }
    }
}

impl Epd7in5 {
    /// Queues one step.
    fn push(&mut self, step: Step)
        ensures
            final(self)@ == old(self)@.queue(seq![step@]),
    {
        self.queue.push_back(step);
        assert(steps_view(self.queue@) =~= steps_view(old(self).queue@) + seq![step@]);
    }

    /// Queues the steps that send `command` to the panel.
    pub fn cmd(&mut self, command: Command)
        ensures
            final(self)@ == old(self)@.queue(cmd_steps(command)),
    {
        self.push(Step::Act(Action::SetDataCommand(false)));
        let byte: Vec<u8> = vec![command.address()];
        assert(byte@ =~= seq![command.spec_address()]);
        self.push(Step::Act(Action::Write(byte)));
        assert(self@.queued =~= old(self)@.queued + cmd_steps(command));
    }

    /// Queues the steps that send `data` as the data of a command.
    fn data(&mut self, data: &[u8])
        ensures
            final(self)@ == old(self)@.queue(data_steps(data@)),
    {
        self.push(Step::Act(Action::SetDataCommand(true)));
        let block: Vec<u8> = vstd::slice::slice_to_vec(data);
        self.push(Step::Act(Action::Write(block)));
        assert(self@.queued =~= old(self)@.queued + data_steps(data@));
    }

    /// Queues the steps that send `command` and its `data` to the panel.
    pub fn cmd_with_data(&mut self, command: Command, data: &[u8])
        ensures
            final(self)@ == old(self)@.queue(cmd_with_data_steps(command, data@)),
    {
        self.cmd(command);
        self.data(data);
        assert(self@.queued =~= old(self)@.queued + cmd_with_data_steps(command, data@));
    }

    /// Queues the wait until the panel is idle: the busy line is polled, with
    /// the status command and the pause before each reading, until it says
    /// that the panel is idle. Nothing bounds the number of polls.
    pub fn wait_until_idle(&mut self)
        ensures
            final(self)@ == old(self)@.queue(wait_steps(old(self)@.delay_us)),
    {
        self.cmd(Command::GetStatus);
        if self.delay_us > 0 {
            self.push(Step::Act(Action::DelayUs(self.delay_us)));
        }
        self.push(Step::Act(Action::ReadBusy));
        assert(self@.queued =~= old(self)@.queued + wait_steps(old(self)@.delay_us));
    }
}

impl Epd7in5 {
    /// Queues the reset of the panel.
    fn reset(&mut self)
        ensures
            final(self)@ == old(self)@.queue(reset_steps()),
    {
        self.push(Step::Act(Action::SetReset(true)));
        self.push(Step::Act(Action::DelayUs(10_000)));
        self.push(Step::Act(Action::SetReset(false)));
        self.push(Step::Act(Action::DelayUs(2_000)));
        self.push(Step::Act(Action::SetReset(true)));
        self.push(Step::Act(Action::DelayUs(200_000)));
        assert(self@.queued =~= old(self)@.queued + reset_steps());
    }

    /// Queues the steps that bring the panel up.
    pub fn init(&mut self)
        ensures
            final(self)@ == old(self)@.queue(init_steps(old(self)@.delay_us)),
    {
        self.reset();
        let booster: [u8; 4] = [0x17, 0x17, 0x28, 0x17];
        self.cmd_with_data(Command::BoosterSoftStart, booster.as_slice());
        self.cmd(Command::PowerOn);
        self.push(Step::Act(Action::DelayUs(100_000)));
        self.wait_until_idle();
        let panel: [u8; 1] = [0x1F];
        assert(panel@ =~= seq![0x1Fu8]);
        self.cmd_with_data(Command::PanelSetting, panel.as_slice());
        let interval: [u8; 2] = [0x29, 0x07];
        self.cmd_with_data(Command::VcomAndDataIntervalSetting, interval.as_slice());
        assert(self@.queued =~= old(self)@.queued + init_steps(old(self)@.delay_us));
    }

    /// A driver for a panel that has just been connected. The steps that
    /// bring the panel up are queued; the panel is ready once they have been
    /// carried out. `delay_us` is the pause between two polls of the busy
    /// line, [`DEFAULT_DELAY_US`] where none is given.
    pub fn new(delay_us: Option<u32>) -> (epd: Self)
        ensures
            epd@ == (DriverState {
                color: DEFAULT_BACKGROUND_COLOR,
                refresh: RefreshLut::Full,
                delay_us: match delay_us {
                    Some(us) => us,
                    None => DEFAULT_DELAY_US,
                },
                queued: init_steps(
                    match delay_us {
                        Some(us) => us,
                        None => DEFAULT_DELAY_US,
                    },
                ),
                polling: false,
            }),
    {
        let delay_us: u32 = match delay_us {
            Some(us) => us,
            None => DEFAULT_DELAY_US,
        };
        let mut epd = Epd7in5 {
            color: DEFAULT_BACKGROUND_COLOR,
            refresh: RefreshLut::Full,
            delay_us,
            queue: VecDeque::new(),
            polling: false,
        };
        epd.init();
        epd
    }

    /// Queues the steps that wake the panel from sleep: it is brought up
    /// again from the reset on.
    pub fn wake_up(&mut self)
        ensures
            final(self)@ == old(self)@.queue(init_steps(old(self)@.delay_us)),
    {
        self.init()
    }

    /// Queues the steps that put the panel to sleep. Only
    /// [`Epd7in5::wake_up`] brings it back.
    pub fn sleep(&mut self)
        ensures
            final(self)@ == old(self)@.queue(sleep_steps(old(self)@.delay_us)),
    {
        self.cmd(Command::PowerOff);
        self.wait_until_idle();
        let check: [u8; 1] = [0xA5];
        assert(check@ =~= seq![0xA5u8]);
        self.cmd_with_data(Command::DeepSleep, check.as_slice());
        assert(self@.queued =~= old(self)@.queued + sleep_steps(old(self)@.delay_us));
    }

    /// Queues the steps that send a whole frame to the panel's memory.
    pub fn update_frame(&mut self, buffer: &[u8])
        ensures
            final(self)@ == old(self)@.queue(update_frame_steps(buffer@)),
    {
        self.cmd_with_data(Command::DataStartTransmission2, buffer);
    }

    /// Whether [`Epd7in5::update_partial_frame`] takes a buffer of `len`
    /// bytes for the window of `width` by `height` pixels at `(x, y)`.
    pub fn accepts_partial_frame(len: usize, x: u32, y: u32, width: u32, height: u32) -> (ok: bool)
        ensures
            ok == partial_frame_ok(len as int, x as int, y as int, width as int, height as int),
    {
        let row_bytes: u64 = (width as u64 + 7) / 8;
        assert(row_bytes * height as u64 <= 0x2000_0000 * 0xFFFF_FFFF) by (nonlinear_arith)
            requires
                row_bytes <= 0x2000_0000,
                height <= 0xFFFF_FFFF,
        ;
        let expected: u64 = row_bytes * height as u64;
        assert(x & !0b111u32 == x - x % 8) by (bit_vector);
        let x_end: u64 = (x & !0b111) as u64 + width as u64;
        let y_end: u64 = y as u64 + height as u64;
        len as u64 == expected && 1 <= x_end && x_end <= 0xFFFF_FFFF && 1 <= y_end && y_end
            <= 0xFFFF_FFFF
    }

    /// Queues the steps that send the window of `width` by `height` pixels at
    /// `(x, y)` to the panel's memory. `buffer` holds the pixels of the window,
    /// each row in whole bytes.
    pub fn update_partial_frame(&mut self, buffer: &[u8], x: u32, y: u32, width: u32, height: u32)
        requires
            partial_frame_ok(buffer@.len() as int, x as int, y as int, width as int, height as int),
        ensures
            final(self)@ == old(self)@.queue(
                update_partial_frame_steps(
                    buffer@,
                    x as int,
                    y as int,
                    width as int,
                    height as int,
                ),
            ),
    {
        assert(x & !0b111u32 == x - x % 8) by (bit_vector);
        let x_aligned: u32 = x & !0b111;
        let x_end: u32 = x_aligned + width - 1;
        assert(x_end | 0b111u32 == x_end - x_end % 8 + 7) by (bit_vector);
        let x_end_aligned: u32 = x_end | 0b111;
        let (hrst_upper, hrst_lower): (u8, u8) = byte_pair(x_aligned);
        let (hred_upper, hred_lower): (u8, u8) = byte_pair(x_end_aligned);
        let y_end: u32 = y + height - 1;
        let (vrst_upper, vrst_lower): (u8, u8) = byte_pair(y);
        let (vred_upper, vred_lower): (u8, u8) = byte_pair(y_end);

        // The gates scan inside and outside of the window: the default.
        let pt_scan: u8 = 0x01;

        self.cmd(Command::PartialIn);
        let window: [u8; 9] = [
            hrst_upper,
            hrst_lower,
            hred_upper,
            hred_lower,
            vrst_upper,
            vrst_lower,
            vred_upper,
            vred_lower,
            pt_scan,
        ];
        self.cmd_with_data(Command::PartialWindow, window.as_slice());
        self.update_frame(buffer);
        self.cmd(Command::PartialOut);
        assert(self@.queued =~= old(self)@.queued + update_partial_frame_steps(
            buffer@,
            x as int,
            y as int,
            width as int,
            height as int,
        ));
    }

    /// Queues the steps that refresh the screen from the panel's memory and
    /// wait until the panel is done.
    pub fn display_frame(&mut self)
        ensures
            final(self)@ == old(self)@.queue(display_frame_steps(old(self)@.delay_us)),
    {
        self.cmd(Command::DisplayRefresh);
        self.wait_until_idle();
        assert(self@.queued =~= old(self)@.queued + display_frame_steps(old(self)@.delay_us));
    }

    /// Queues the steps that send a whole frame and refresh the screen.
    pub fn update_and_display_frame(&mut self, buffer: &[u8])
        ensures
            final(self)@ == old(self)@.queue(
                update_frame_steps(buffer@) + display_frame_steps(old(self)@.delay_us),
            ),
    {
        self.update_frame(buffer);
        self.cmd(Command::DisplayRefresh);
        self.wait_until_idle();
        assert(self@.queued =~= old(self)@.queued + (update_frame_steps(buffer@)
            + display_frame_steps(old(self)@.delay_us)));
    }

    /// Queues the steps that blank the panel: its memory is filled with 0xFF,
    /// past any framebuffer, and the screen is refreshed.
    pub fn clear_frame(&mut self)
        ensures
            final(self)@ == old(self)@.queue(clear_frame_steps(old(self)@.delay_us)),
    {
        self.cmd(Command::DataStartTransmission2);
        let count: usize = (WIDTH / 8 * HEIGHT) as usize;
        let blank: Vec<u8> = vec![0xFFu8; count];
        assert(blank@ =~= Seq::new((WIDTH / 8 * HEIGHT) as nat, |i: int| 0xFFu8));
        self.data(blank.as_slice());
        self.cmd(Command::DisplayRefresh);
        self.wait_until_idle();
        assert(self@.queued =~= old(self)@.queued + clear_frame_steps(old(self)@.delay_us));
    }

    /// Sets the colour of the background. Nothing is sent to the panel.
    pub fn set_background_color(&mut self, color: Color)
        ensures
            final(self)@ == (DriverState { color, ..old(self)@ }),
    {
        self.color = color;
    }

    /// The colour of the background.
    pub fn background_color(&self) -> (color: &Color)
        ensures
            *color == self@.color,
    {
        &self.color
    }

    /// Pixels in one row of the panel.
    pub fn width(&self) -> (w: u32)
        ensures
            w == WIDTH,
    {
        WIDTH
    }

    /// Rows of the panel.
    pub fn height(&self) -> (h: u32)
        ensures
            h == HEIGHT,
    {
        HEIGHT
    }

    /// The waveform that the panel will refresh with once everything queued
    /// has been carried out.
    pub fn lut_ahead(&self) -> (lut: RefreshLut)
        ensures
            lut == self@.lut_ahead(),
    {
        let ghost queued = self@.queued;
        let mut i: usize = self.queue.len();
        assert(queued.take(i as int) =~= queued);
        while i > 0
            invariant
                i <= self.queue@.len(),
                queued == steps_view(self.queue@),
                lut_after(queued, self.refresh) == lut_after(queued.take(i as int), self.refresh),
            decreases i,
        {
            i = i - 1;
            proof {
                assert(queued.take(i as int + 1).drop_last() =~= queued.take(i as int));
            }
            match &self.queue[i] {
                Step::Record(lut) => {
                    return *lut;
                },
                Step::Act(_) => {},
            }
        }
        self.refresh
    }

    /// Queues the steps that select the waveform `refresh_rate`; no request
    /// selects the full one.
    ///
    /// The waveform that counts as the current one is the one that the panel
    /// will have when its turn comes: [`DriverState::lut_ahead`]. A request
    /// for that waveform queues nothing.
    pub fn set_lut(&mut self, refresh_rate: Option<RefreshLut>)
        ensures
            final(self)@ == old(self)@.queue(lut_steps(old(self)@.lut_ahead(), refresh_rate)),
            refresh_rate == Some(old(self)@.lut_ahead()) ==> final(self)@ == old(self)@,
            final(self)@.lut_ahead() == requested_lut(refresh_rate),
    {
        proof {
            lemma_lut_steps_select(old(self)@, refresh_rate);
        }
        let current: RefreshLut = self.lut_ahead();
        let same: bool = match refresh_rate {
            Some(lut) => lut == current,
            None => false,
        };
        if same {
            return ;
        }
        if current == RefreshLut::Quick {
            // The booster goes back to its default timing.
            let booster: [u8; 4] = [0x17, 0x17, 0x28, 0x17];
            self.cmd_with_data(Command::BoosterSoftStart, booster.as_slice());
        }
        match refresh_rate {
            Some(RefreshLut::Quick) => {
                let booster: [u8; 4] = [0x27, 0x27, 0x18, 0x17];
                self.cmd_with_data(Command::BoosterSoftStart, booster.as_slice());
                let cascade: [u8; 1] = [0x02];
                assert(cascade@ =~= seq![0x02u8]);
                self.cmd_with_data(Command::CascadeSetting, cascade.as_slice());
                let temperature: [u8; 1] = [0x5A];
                assert(temperature@ =~= seq![0x5Au8]);
                self.cmd_with_data(Command::ForceTemperature, temperature.as_slice());
            },
            Some(RefreshLut::PartialRefresh) => {
                let cascade: [u8; 1] = [0x02];
                assert(cascade@ =~= seq![0x02u8]);
                self.cmd_with_data(Command::CascadeSetting, cascade.as_slice());
                let temperature: [u8; 1] = [0x6E];
                assert(temperature@ =~= seq![0x6Eu8]);
                self.cmd_with_data(Command::ForceTemperature, temperature.as_slice());
            },
            _ => {
                let cascade: [u8; 1] = [0x00];
                assert(cascade@ =~= seq![0x00u8]);
                self.cmd_with_data(Command::CascadeSetting, cascade.as_slice());
            },
        }
        let recorded: RefreshLut = match refresh_rate {
            Some(lut) => lut,
            None => RefreshLut::Full,
        };
        self.push(Step::Record(recorded));
        assert(self@.queued =~= old(self)@.queued + lut_steps(current, refresh_rate));
    }

    /// Whether nothing is queued.
    pub fn is_idle(&self) -> (idle: bool)
        ensures
            idle == (self@.queued.len() == 0),
    {
        self.queue.len() == 0
    }

    /// Drops what is queued, as is due where the hardware has failed: the
    /// steps that are left are not carried out, and the waveform stays the
    /// one that was recorded last.
    pub fn abort(&mut self)
        ensures
            final(self)@ == (DriverState {
                queued: Seq::<StepView>::empty(),
                polling: false,
                ..old(self)@
            }),
    {
        self.queue.clear();
        self.polling = false;
        assert(self@.queued =~= Seq::<StepView>::empty());
    }

    /// Takes `event` in and hands out the next action.
    ///
    /// The caller starts with [`Event::Done`], carries out each action that
    /// it is handed and reports back, until it is handed
    /// [`Action::Finished`]. After [`Action::ReadBusy`] it reports the level
    /// of the busy line; while the line says that the panel is busy, the poll
    /// is handed out again.
    pub fn step(&mut self, event: Event) -> (action: Action)
        ensures
            (final(self)@, action@) == next_step(old(self)@, event),
    {
        let again: bool = self.polling && match event {
            Event::Busy(line_low) => is_busy(IS_BUSY_LOW, line_low),
            Event::Done => false,
        };
        self.polling = false;
        if again {
            self.queue.push_front(Step::Act(Action::ReadBusy));
            if self.delay_us > 0 {
                self.queue.push_front(Step::Act(Action::DelayUs(self.delay_us)));
            }
            let byte: Vec<u8> = vec![Command::GetStatus.address()];
            assert(byte@ =~= seq![Command::GetStatus.spec_address()]);
            self.queue.push_front(Step::Act(Action::Write(byte)));
            self.queue.push_front(Step::Act(Action::SetDataCommand(false)));
            assert(steps_view(self.queue@) =~= wait_steps(self.delay_us) + old(self)@.queued);
        }
        loop
            invariant
                settled(self@) == settled(resumed(old(self)@, event)),
                !self.polling,
            decreases self.queue@.len(),
        {
            let ghost before = self@;
            match self.queue.pop_front() {
                None => {
                    return Action::Finished;
                },
                Some(Step::Record(lut)) => {
                    self.refresh = lut;
                    assert(self@.queued =~= before.queued.drop_first());
                },
                Some(Step::Act(action)) => {
                    assert(self@.queued =~= before.queued.drop_first());
                    self.polling = match action {
                        Action::ReadBusy => true,
                        _ => false,
                    };
                    return action;
                },
            }
        }
    }
}

/// A request for the waveform that the panel will have takes no step: the
/// state stays as it is, and an idle driver has nothing to hand out.
pub proof fn lemma_same_lut_sends_nothing(s: DriverState)
    ensures
        lut_steps(s.lut_ahead(), Some(s.lut_ahead())).len() == 0,
        s.queue(lut_steps(s.lut_ahead(), Some(s.lut_ahead()))) == s,
        s.queued.len() == 0 && !s.polling ==> s.lut_ahead() == s.refresh && next_step(
            s.queue(lut_steps(s.refresh, Some(s.refresh))),
            Event::Done,
        ) == (s, ActionView::Finished),
{
    assert(s.queued + Seq::<StepView>::empty() =~= s.queued);
}

/// Once the steps that select a waveform are queued, the panel will have the
/// waveform that was asked for.
pub proof fn lemma_lut_steps_select(s: DriverState, refresh_rate: Option<RefreshLut>)
    ensures
        s.queue(lut_steps(s.lut_ahead(), refresh_rate)).lut_ahead() == requested_lut(refresh_rate),
{
    let steps = lut_steps(s.lut_ahead(), refresh_rate);
    if refresh_rate == Some(s.lut_ahead()) {
        assert(s.queued + steps =~= s.queued);
    } else {
        assert((s.queued + steps).last() == StepView::Record(requested_lut(refresh_rate)));
    }
}

/// The state once everything queued has been handed out and carried out, the
/// busy line never saying that the panel is busy.
pub open spec fn drained(s: DriverState) -> DriverState
    decreases s.queued.len(),
{
    if s.queued.len() == 0 {
        DriverState { polling: false, ..s }
    } else if s.queued[0] is Record {
        drained(
            DriverState { refresh: s.queued[0]->Record_0, queued: s.queued.drop_first(), ..s },
        )
    } else {
        drained(DriverState { queued: s.queued.drop_first(), ..s })
    }
}

/// Once everything queued has been carried out, nothing is left, and the
/// panel refreshes with the waveform that [`DriverState::lut_ahead`] foretold.
pub proof fn lemma_drained(s: DriverState)
    ensures
        drained(s).queued.len() == 0,
        drained(s).refresh == s.lut_ahead(),
        drained(s).color == s.color,
        drained(s).delay_us == s.delay_us,
    decreases s.queued.len(),
{
    if s.queued.len() > 0 {
        let rest = s.queued.drop_first();
        let t = if s.queued[0] is Record {
            DriverState { refresh: s.queued[0]->Record_0, queued: rest, ..s }
        } else {
            DriverState { queued: rest, ..s }
        };
        lemma_drained(t);
        lemma_lut_after_head(s.queued, s.refresh);
    }
}

/// Where the driver ends once everything has been carried out does not
/// depend on whether a reading of the busy line is due.
pub proof fn lemma_drained_whatever_polling(s: DriverState, polling: bool)
    ensures
        drained(DriverState { polling, ..s }) == drained(s),
    decreases s.queued.len(),
{
    if s.queued.len() > 0 {
        let rest = s.queued.drop_first();
        if s.queued[0] is Record {
            lemma_drained_whatever_polling(
                DriverState { refresh: s.queued[0]->Record_0, queued: rest, ..s },
                polling,
            );
        } else {
            lemma_drained_whatever_polling(DriverState { queued: rest, ..s }, polling);
        }
    }
}

/// Taking in the records at the head of the queue leaves an action at the
/// head, or nothing, and does not change where the driver ends.
pub proof fn lemma_settled(s: DriverState)
    ensures
        settled(s).queued.len() == 0 || settled(s).queued[0] is Act,
        drained(settled(s)) == drained(s),
        settled(s).polling == s.polling,
    decreases s.queued.len(),
{
    if s.queued.len() > 0 && s.queued[0] is Record {
        lemma_settled(
            DriverState { refresh: s.queued[0]->Record_0, queued: s.queued.drop_first(), ..s },
        );
    }
}

/// A step of the driver, unless it is told that the panel is busy, does not
/// change where the driver ends: it hands out one of the queued actions and
/// keeps the rest for later.
pub proof fn lemma_step_keeps_course(s: DriverState, event: Event)
    requires
        !(s.polling && says_busy(event)),
    ensures
        drained(next_step(s, event).0) == drained(s),
{
    let r = resumed(s, event);
    lemma_drained_whatever_polling(s, false);
    lemma_settled(r);
    let t = settled(r);
    if t.queued.len() > 0 {
        let after = next_step(s, event).0;
        lemma_drained_whatever_polling(
            DriverState { queued: t.queued.drop_first(), ..t },
            after.polling,
        );
    }
}

/// The waveform after a queue is the waveform after its tail, from the
/// waveform that the head records where it records one.
pub proof fn lemma_lut_after_head(queued: Seq<StepView>, refresh: RefreshLut)
    requires
        queued.len() > 0,
    ensures
        lut_after(queued, refresh) == lut_after(
            queued.drop_first(),
            match queued[0] {
                StepView::Record(lut) => lut,
                StepView::Act(_) => refresh,
            },
        ),
    decreases queued.len(),
{
    let rest = queued.drop_first();
    if queued.len() == 1 {
        assert(rest.len() == 0);
        assert(queued.last() == queued[0]);
    } else {
        assert(rest.last() == queued.last());
        assert(queued.drop_last().drop_first() =~= rest.drop_last());
        if queued.last() is Act {
            lemma_lut_after_head(queued.drop_last(), refresh);
        }
    }
}

/// The two low bytes of `v`, the upper one first.
pub fn byte_pair(v: u32) -> (pair: (u8, u8))
    ensures
        pair.0 == upper_byte(v as int),
        pair.1 == lower_byte(v as int),
{
    assert((v >> 8) & 0xFF == v / 256 % 256 && v & 0xFF == v % 256 && (v >> 8) & 0xFF < 256 && v
        & 0xFF < 256) by (bit_vector);
    (((v >> 8) & 0xFF) as u8, (v & 0xFF) as u8)
}

} // verus!
