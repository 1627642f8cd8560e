//! What the drivers ask of the hardware, and what they hear back.
//!
//! A driver never touches the bus or the pins. It hands out one [`Action`] at
//! a time, the caller carries it out on the hardware and reports an [`Event`],
//! and the driver answers with the next action. All a panel needs is a bus to
//! write bytes to, two output lines (data/command and reset), one input line
//! (busy), and a way to wait.

use vstd::prelude::*;
use crate::traits::RefreshLut;

verus! {

/// One thing for the caller to do on the hardware.
#[derive(Debug, PartialEq, Eq)]
pub enum Action {
    /// Nothing is left to do: what was asked of the driver has been done.
    Finished,
    /// Drive the data/command line high (`true`) or low (`false`). Low
    /// announces a command byte, high the data that belong to it.
    SetDataCommand(bool),
    /// Drive the reset line high (`true`) or low (`false`). Low resets the
    /// panel.
    SetReset(bool),
    /// Write these bytes to the bus.
    Write(Vec<u8>),
    /// Wait this many microseconds.
    DelayUs(u32),
    /// Read the busy line, and report it with [`Event::Busy`].
    ReadBusy,
}

/// An [`Action`] as specifications see it.
pub enum ActionView {
    /// Nothing is left to do.
    Finished,
    /// Drive the data/command line.
    SetDataCommand(bool),
    /// Drive the reset line.
    SetReset(bool),
    /// Write these bytes to the bus.
    Write(Seq<u8>),
    /// Wait this many microseconds.
    DelayUs(u32),
    /// Read the busy line.
    ReadBusy,
}

impl View for Action {
    type V = ActionView;

    open spec fn view(&self) -> ActionView {
        match self {
            Action::Finished => ActionView::Finished,
            Action::SetDataCommand(high) => ActionView::SetDataCommand(*high),
            Action::SetReset(high) => ActionView::SetReset(*high),
            Action::Write(bytes) => ActionView::Write(bytes@),
            Action::DelayUs(us) => ActionView::DelayUs(*us),
            Action::ReadBusy => ActionView::ReadBusy,
        }
    }
}

/// What the caller reports back to the driver.
#[derive(Clone, Copy, PartialEq, Eq, Debug, Structural)]
pub enum Event {
    /// The action that was handed out last has been carried out. It is also
    /// the event to start with, while no action has been handed out yet.
    Done,
    /// The busy line was read: `Some(true)` where it is low, `Some(false)`
    /// where it is high, `None` where it could not be read.
    Busy(Option<bool>),
}

/// One entry of what a driver has queued: an action to hand out, or the note
/// that the panel has its new waveform once the entries before this one have
/// been carried out.
#[derive(Debug, PartialEq, Eq)]
pub enum Step {
    /// Hand this action out.
    Act(Action),
    /// The panel now refreshes with this waveform.
    Record(RefreshLut),
}

/// A [`Step`] as specifications see it.
pub enum StepView {
    /// Hand this action out.
    Act(ActionView),
    /// The panel now refreshes with this waveform.
    Record(RefreshLut),
}

impl View for Step {
    type V = StepView;

    open spec fn view(&self) -> StepView {
        match self {
            Step::Act(action) => StepView::Act(action@),
            Step::Record(lut) => StepView::Record(*lut),
        }
    }
}

/// Whether a reading of the busy line says that the panel is busy. A panel
/// whose busy line is active low (`is_busy_low`) is busy while the line is
/// low, another one while it is high. A line that could not be read counts as
/// idle.
pub open spec fn busy_reading(is_busy_low: bool, line_low: Option<bool>) -> bool {
    match line_low {
        Some(low) => low == is_busy_low,
        None => false,
    }
}

/// Whether a reading of the busy line says that the panel is busy.
pub fn is_busy(is_busy_low: bool, line_low: Option<bool>) -> (busy: bool)
    ensures
        busy == busy_reading(is_busy_low, line_low),
{
    match line_low {
        Some(low) => low == is_busy_low,
        None => false,
    }
}

} // verus!
