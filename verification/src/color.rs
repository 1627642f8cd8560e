//! The colours that the panels can show, and how each is stored.
//!
//! Every colour takes one bit per pixel in each plane. A monochrome panel has
//! one plane. A tri-colour panel has two: the first tells black from white,
//! the second marks the chromatic pixels.

use vstd::prelude::*;
use crate::bits::pixel_bit;

verus! {

/// What the pixel writer needs to know of a colour type.
pub trait ColorType: Copy {
    /// Bits that one pixel takes in each plane.
    const BITS_PER_PIXEL_PER_BUFFER: usize;

    /// Number of planes.
    const BUFFER_COUNT: usize;

    /// Bits that one pixel takes in each plane, as specifications count them.
    spec fn bits_per_pixel() -> int;

    /// Number of planes, as specifications count them.
    spec fn planes() -> int;

    /// The bits that store this colour in the first and in the second plane.
    /// `bwrbit` is the polarity of the panel: whether a chromatic pixel leaves
    /// its bit in the first plane clear.
    spec fn plane_bits(self, bwrbit: bool) -> (bool, bool);

    /// The colour of a pixel whose bits in the two planes are `low` and `high`.
    spec fn from_plane_bits(low: bool, high: bool) -> Self;

    /// The mask and the pattern that write this colour at column `pos`.
    ///
    /// The mask keeps the seven pixels beside the one at `pos`; it is to be
    /// ANDed with the byte of each plane. The low byte of the pattern is ORed
    /// into the first plane afterwards, the high byte into the second.
    fn bitmask(&self, bwrbit: bool, pos: u32) -> (r: (u8, u16))
        ensures
            r.0 == !pixel_bit((pos % 8) as u8),
            (r.1 & 0xFF) as u8 == (if self.plane_bits(bwrbit).0 {
                pixel_bit((pos % 8) as u8)
            } else {
                0u8
            }),
            (r.1 >> 8) as u8 == (if self.plane_bits(bwrbit).1 {
                pixel_bit((pos % 8) as u8)
            } else {
                0u8
            }),
    ;

    /// One bit per pixel and plane, in one plane or two; the two constants
    /// say the same.
    proof fn lemma_layout()
        ensures
            Self::bits_per_pixel() == 1,
            1 <= Self::planes() <= 2,
            Self::BITS_PER_PIXEL_PER_BUFFER == Self::bits_per_pixel(),
            Self::BUFFER_COUNT == Self::planes(),
    ;

    /// The stored bits tell the colour, under either polarity. A colour with
    /// one plane stores nothing in the second.
    proof fn lemma_bits_tell_color(self, bwrbit: bool)
        ensures
            Self::from_plane_bits(self.plane_bits(bwrbit).0, self.plane_bits(bwrbit).1) == self,
            Self::planes() == 1 ==> !self.plane_bits(bwrbit).1,
    ;
}

/// The two colours of a monochrome panel.
#[derive(Clone, Copy, PartialEq, Eq, Debug, Structural)]
pub enum Color {
    /// Black: the pixel's bit is clear.
    Black,
    /// White: the pixel's bit is set.
    White,
}

/// The three colours of a tri-colour panel.
#[derive(Clone, Copy, PartialEq, Eq, Debug, Structural)]
pub enum TriColor {
    /// Black.
    Black,
    /// White.
    White,
    /// The third colour of the panel, red or yellow.
    Chromatic,
}

impl Color {
    /// The byte of eight pixels of this colour: 0xFF for white, 0x00 for black.
    pub fn get_byte_value(self) -> (v: u8)
        ensures
            v == (if self == Color::White {
                0xFFu8
            } else {
                0x00u8
            }),
    {
        match self {
            Color::White => 0xFFu8,
            Color::Black => 0x00u8,
        }
    }
}

impl ColorType for Color {
    const BITS_PER_PIXEL_PER_BUFFER: usize = 1;

    const BUFFER_COUNT: usize = 1;

    open spec fn bits_per_pixel() -> int {
        1
    }

    open spec fn planes() -> int {
        1
    }

    open spec fn plane_bits(self, bwrbit: bool) -> (bool, bool) {
        (self == Color::White, false)
    }

    open spec fn from_plane_bits(low: bool, high: bool) -> Self {
        if low {
            Color::White
        } else {
            Color::Black
        }
    }

    fn bitmask(&self, bwrbit: bool, pos: u32) -> (r: (u8, u16)) {
        let k: u32 = pos % 8;
        let bit: u8 = 0x80u8 >> k;
        proof {
            lemma_pattern(k);
        }
        match self {
            Color::Black => (!bit, 0u16),
            Color::White => (!bit, bit as u16),
        }
    }

    proof fn lemma_layout() {
    }

    proof fn lemma_bits_tell_color(self, bwrbit: bool) {
    }
}

impl ColorType for TriColor {
    const BITS_PER_PIXEL_PER_BUFFER: usize = 1;

    const BUFFER_COUNT: usize = 2;

    open spec fn bits_per_pixel() -> int {
        1
    }

    open spec fn planes() -> int {
        2
    }

    open spec fn plane_bits(self, bwrbit: bool) -> (bool, bool) {
        match self {
            TriColor::Black => (false, false),
            TriColor::White => (true, false),
            TriColor::Chromatic => (!bwrbit, true),
        }
    }

    open spec fn from_plane_bits(low: bool, high: bool) -> Self {
        if high {
            TriColor::Chromatic
        } else if low {
            TriColor::White
        } else {
            TriColor::Black
        }
    }

    fn bitmask(&self, bwrbit: bool, pos: u32) -> (r: (u8, u16)) {
        let k: u32 = pos % 8;
        let bit: u8 = 0x80u8 >> k;
        proof {
            lemma_pattern(k);
        }
        match self {
            TriColor::Black => (!bit, 0u16),
            TriColor::White => (!bit, bit as u16),
            TriColor::Chromatic => (
                !bit,
                if bwrbit {
                    (bit as u16) << 8
                } else {
                    (bit as u16) << 8 | bit as u16
                },
            ),
        }
    }

    proof fn lemma_layout() {
    }

    proof fn lemma_bits_tell_color(self, bwrbit: bool) {
    }
}

/// How the four patterns that `bitmask` hands out split into their two bytes.
proof fn lemma_pattern(k: u32)
    requires
        k < 8,
    ensures
        0x80u8 >> k == pixel_bit(k as u8),
        (0u16 & 0xFF) as u8 == 0u8,
        (0u16 >> 8) as u8 == 0u8,
        (((0x80u8 >> k) as u16) & 0xFF) as u8 == 0x80u8 >> k,
        (((0x80u8 >> k) as u16) >> 8) as u8 == 0u8,
        ((((0x80u8 >> k) as u16) << 8) & 0xFF) as u8 == 0u8,
        ((((0x80u8 >> k) as u16) << 8) >> 8) as u8 == 0x80u8 >> k,
        (((((0x80u8 >> k) as u16) << 8) | ((0x80u8 >> k) as u16)) & 0xFF) as u8 == 0x80u8 >> k,
        (((((0x80u8 >> k) as u16) << 8) | ((0x80u8 >> k) as u16)) >> 8) as u8 == 0x80u8 >> k,
{
    let bit: u8 = 0x80u8 >> k;
    let wide: u16 = bit as u16;
    assert((0u16 & 0xFF) as u8 == 0u8 && (0u16 >> 8) as u8 == 0u8 && (wide & 0xFF) as u8 == bit && (
    wide >> 8) as u8 == 0u8 && ((wide << 8) & 0xFF) as u8 == 0u8 && ((wide << 8) >> 8) as u8 == bit
        && (((wide << 8) | wide) & 0xFF) as u8 == bit && (((wide << 8) | wide) >> 8) as u8 == bit)
        by (bit_vector)
        requires
            wide == bit as u16,
    ;
}

} // verus!
