//! What the panel drivers have in common.

use vstd::prelude::*;

verus! {

/// The waveform with which the panel refreshes: the table of voltages that it
/// steps through, which trades speed against image quality.
#[derive(Clone, Copy, PartialEq, Eq, Debug, Structural)]
pub enum RefreshLut {
    /// The waveform that the panel picks by its temperature: slow, and the
    /// cleanest image.
    Full,
    /// A fast waveform that leaves more ghosting.
    Quick,
    /// A waveform that changes pixels without flashing the screen. Ghosting
    /// adds up under it, so that a full refresh is due now and again.
    PartialRefresh,
}

impl Default for RefreshLut {
    fn default() -> (r: Self)
        ensures
            r == RefreshLut::Full,
    {
        RefreshLut::Full
    }
}

} // verus!
