//! Driver core for bi-level and tri-level e-paper panels: a bit-packed
//! framebuffer with rotation and byte-aligned partial updates, and the command
//! sequences that carry it to the panel.
//!
//! - [`color`]: the colours, and the bits that store them.
//! - [`bits`]: the eight pixels of one byte.
//! - [`layout`]: where a pixel lies in a buffer, and what writing it does.
//! - [`graphics`]: the framebuffers and the frames of their windows.
//! - [`window`]: how a window is widened to byte boundaries, and what the
//!   window and the display hold once they have been reconciled.
//! - [`interface`]: the actions that a driver asks of the hardware.
//! - [`epd7in5_v2`]: the driver of the 7.5 inch panel.
//!
//! Nothing here touches hardware: a driver says what is to be done, and the
//! caller does it.

use vstd::prelude::*;

pub mod bits;
pub mod color;
pub mod epd7in5_v2;
pub mod geometry;
pub mod graphics;
pub mod interface;
pub mod layout;
pub mod traits;
pub mod window;

verus! {

/// Bytes that a monochrome image of `width` by `height` pixels takes: each
/// row starts on a byte of its own.
pub open spec fn buffer_len_of(width: int, height: int) -> int {
    (width + 7) / 8 * height
}

/// Bytes that a monochrome image of `width` by `height` pixels takes.
pub fn buffer_len(width: usize, height: usize) -> (n: usize)
    requires
        width + 7 <= usize::MAX,
        buffer_len_of(width as int, height as int) <= usize::MAX,
    ensures
        n == buffer_len_of(width as int, height as int),
{
    (width + 7) / 8 * height
}

} // verus!
