//! The commands of the controller of the 7.5 inch panel (V2) that the driver
//! sends.

use vstd::prelude::*;

verus! {

/// A command of the panel's controller.
#[derive(Clone, Copy, PartialEq, Eq, Debug, Structural)]
pub enum Command {
    /// Sets how the panel is scanned and which colours it shows.
    PanelSetting,
    /// Turns the analog stage off.
    PowerOff,
    /// Turns the analog stage on.
    PowerOn,
    /// Sets the timing of the booster's soft start.
    BoosterSoftStart,
    /// Puts the panel into deep sleep; takes the check byte 0xA5.
    DeepSleep,
    /// Refreshes the screen from the panel's memory.
    DisplayRefresh,
    /// Starts the transfer of the new image.
    DataStartTransmission2,
    /// Sets the interval between VCOM and data, and the polarity of the data.
    VcomAndDataIntervalSetting,
    /// Asks for the status flags.
    GetStatus,
    /// Sets the window of a partial update.
    PartialWindow,
    /// Enters partial mode.
    PartialIn,
    /// Leaves partial mode.
    PartialOut,
    /// Sets whether the temperature is read or forced.
    CascadeSetting,
    /// Forces the temperature that picks the waveform.
    ForceTemperature,
}

impl Command {
    /// The byte that stands for the command on the bus.
    pub open spec fn spec_address(self) -> u8 {
        match self {
            Command::PanelSetting => 0x00,
            Command::PowerOff => 0x02,
            Command::PowerOn => 0x04,
            Command::BoosterSoftStart => 0x06,
            Command::DeepSleep => 0x07,
            Command::DisplayRefresh => 0x12,
            Command::DataStartTransmission2 => 0x13,
            Command::VcomAndDataIntervalSetting => 0x50,
            Command::GetStatus => 0x71,
            Command::PartialWindow => 0x90,
            Command::PartialIn => 0x91,
            Command::PartialOut => 0x92,
            Command::CascadeSetting => 0xE0,
            Command::ForceTemperature => 0xE5,
        }
    }

    /// The byte that stands for the command on the bus.
    #[verifier::when_used_as_spec(spec_address)]
    pub fn address(self) -> (a: u8)
        ensures
            a == self.spec_address(),
    {
        match self {
            Command::PanelSetting => 0x00,
            Command::PowerOff => 0x02,
            Command::PowerOn => 0x04,
            Command::BoosterSoftStart => 0x06,
            Command::DeepSleep => 0x07,
            Command::DisplayRefresh => 0x12,
            Command::DataStartTransmission2 => 0x13,
            Command::VcomAndDataIntervalSetting => 0x50,
            Command::GetStatus => 0x71,
            Command::PartialWindow => 0x90,
            Command::PartialIn => 0x91,
            Command::PartialOut => 0x92,
            Command::CascadeSetting => 0xE0,
            Command::ForceTemperature => 0xE5,
        }
    }
}

} // verus!
