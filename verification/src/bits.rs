//! Pixels inside one byte.
//!
//! A byte of a plane holds eight pixels that lie side by side in one row. The
//! leftmost of them is bit 7, the rightmost bit 0.

use vstd::prelude::*;

verus! {

/// The byte in which only the pixel `k` places from the left is set.
pub open spec fn pixel_bit(k: u8) -> u8 {
    0x80u8 >> k
}

/// Whether the pixel `k` places from the left is set in `byte`.
pub open spec fn bit_is_set(byte: u8, k: u8) -> bool {
    byte & pixel_bit(k) != 0
}

/// `byte` with the pixel `k` places from the left set or cleared, the other
/// seven untouched.
pub open spec fn with_bit(byte: u8, k: u8, on: bool) -> u8 {
    (byte & !pixel_bit(k)) | (if on {
        pixel_bit(k)
    } else {
        0u8
    })
}

/// The pixels of `other` where `mask` is set, those of `own` elsewhere.
pub open spec fn blend(own: u8, other: u8, mask: u8) -> u8 {
    (own & !mask) | (other & mask)
}

/// The mask of the `n` leftmost pixels of a byte, for `n` below 8.
pub open spec fn left_mask(n: u8) -> u8 {
    if n == 0 {
        0u8
    } else {
        0xFFu8 << ((8 - n) as u8)
    }
}

/// The mask of the `n` rightmost pixels of a byte, for `n` below 8.
pub open spec fn right_mask(n: u8) -> u8 {
    if n == 0 {
        0u8
    } else {
        ((1u8 << n) - 1) as u8
    }
}

/// A pixel that was just written reads back as written.
pub proof fn lemma_with_bit_same(byte: u8, k: u8, on: bool)
    requires
        k < 8,
    ensures
        bit_is_set(with_bit(byte, k, on), k) == on,
{
    let set: u8 = (byte & !(0x80u8 >> k)) | (0x80u8 >> k);
    let cleared: u8 = (byte & !(0x80u8 >> k)) | 0u8;
    assert(set & (0x80u8 >> k) != 0 && cleared & (0x80u8 >> k) == 0) by (bit_vector)
        requires
            k < 8,
            set == (byte & !(0x80u8 >> k)) | (0x80u8 >> k),
            cleared == (byte & !(0x80u8 >> k)) | 0u8,
    ;
}

/// Writing one pixel leaves the other seven of the byte as they were.
pub proof fn lemma_with_bit_other(byte: u8, k: u8, on: bool, j: u8)
    requires
        k < 8,
        j < 8,
        j != k,
    ensures
        bit_is_set(with_bit(byte, k, on), j) == bit_is_set(byte, j),
{
    let set: u8 = (byte & !(0x80u8 >> k)) | (0x80u8 >> k);
    let cleared: u8 = (byte & !(0x80u8 >> k)) | 0u8;
    assert(set & (0x80u8 >> j) == byte & (0x80u8 >> j) && cleared & (0x80u8 >> j) == byte & (0x80u8
        >> j)) by (bit_vector)
        requires
            k < 8,
            j < 8,
            j != k,
            set == (byte & !(0x80u8 >> k)) | (0x80u8 >> k),
            cleared == (byte & !(0x80u8 >> k)) | 0u8,
    ;
}

/// A blended byte shows, pixel by pixel, `other` under the mask and `own`
/// beside it.
pub proof fn lemma_blend_bit(own: u8, other: u8, mask: u8, k: u8)
    requires
        k < 8,
    ensures
        bit_is_set(blend(own, other, mask), k) == (if bit_is_set(mask, k) {
            bit_is_set(other, k)
        } else {
            bit_is_set(own, k)
        }),
{
    let mixed: u8 = (own & !mask) | (other & mask);
    let bit: u8 = 0x80u8 >> k;
    assert((mixed & bit != 0) == (if mask & bit != 0 {
        other & bit != 0
    } else {
        own & bit != 0
    })) by (bit_vector)
        requires
            k < 8,
            bit == 0x80u8 >> k,
            mixed == (own & !mask) | (other & mask),
    ;
}

/// Blending under one mask and under a second, from the same byte, is blending
/// under both; under no mask it changes nothing.
pub proof fn lemma_blend_twice(own: u8, other: u8, first: u8, second: u8)
    ensures
        blend(blend(own, other, first), other, second) == blend(own, other, first | second),
        blend(own, other, 0u8) == own,
        first | 0u8 == first,
        0u8 | second == second,
{
    assert((((own & !first) | (other & first)) & !second) | (other & second) == (own & !(first
        | second)) | (other & (first | second))) by (bit_vector);
    assert((own & !0u8) | (other & 0u8) == own) by (bit_vector);
    assert(first | 0u8 == first) by (bit_vector);
    assert(0u8 | second == second) by (bit_vector);
}

/// A pixel is set in the union of two bytes exactly if it is set in one of
/// them.
pub proof fn lemma_or_bit(a: u8, b: u8, k: u8)
    requires
        k < 8,
    ensures
        bit_is_set(a | b, k) == (bit_is_set(a, k) || bit_is_set(b, k)),
{
    let bit: u8 = 0x80u8 >> k;
    assert(((a | b) & bit != 0) == ((a & bit != 0) || (b & bit != 0))) by (bit_vector);
}

/// The left mask of `n` covers exactly the pixels at places below `n`.
pub proof fn lemma_left_mask_bit(n: u8, k: u8)
    requires
        n < 8,
        k < 8,
    ensures
        bit_is_set(left_mask(n), k) == (k < n),
{
    if n == 0 {
        assert(0u8 & (0x80u8 >> k) == 0) by (bit_vector);
    } else {
        let shift: u8 = (8 - n) as u8;
        assert(((0xFFu8 << shift) & (0x80u8 >> k) != 0) == (k < n)) by (bit_vector)
            requires
                0 < n < 8,
                k < 8,
                shift == 8 - n,
        ;
    }
}

/// The right mask of `n` covers exactly the pixels at the last `n` places.
pub proof fn lemma_right_mask_bit(n: u8, k: u8)
    requires
        n < 8,
        k < 8,
    ensures
        bit_is_set(right_mask(n), k) == (k >= 8 - n),
{
    if n == 0 {
        assert(0u8 & (0x80u8 >> k) == 0) by (bit_vector);
    } else {
        let low: u8 = ((1u8 << n) - 1) as u8;
        assert(1u8 << n >= 1) by (bit_vector)
            requires
                n < 8,
        ;
        assert((low & (0x80u8 >> k) != 0) == (k + n >= 8)) by (bit_vector)
            requires
                0 < n < 8,
                k < 8,
                low == (1u8 << n) - 1,
        ;
    }
}

/// Copies the `offset_pixels` leftmost pixels of `src` into `dst`.
pub fn copy_left_padding_bits(dst: &mut u8, src: u8, offset_pixels: u32)
    requires
        offset_pixels < 8,
    ensures
        *final(dst) == blend(*old(dst), src, left_mask(offset_pixels as u8)),
{
    if offset_pixels == 0 {
        assert(blend(*dst, src, 0u8) == *dst) by {
            let d: u8 = *dst;
            assert((d & !0u8) | (src & 0u8) == d) by (bit_vector);
        }
        return ;
    }
    let shift: u32 = 8 - offset_pixels;
    let padding_mask: u8 = 0xFFu8 << shift;
    *dst = (*dst & !padding_mask) | (src & padding_mask);
}

/// Copies the `offset_pixels` rightmost pixels of `src` into `dst`.
pub fn copy_right_padding_bits(dst: &mut u8, src: u8, offset_pixels: u32)
    requires
        offset_pixels < 8,
    ensures
        *final(dst) == blend(*old(dst), src, right_mask(offset_pixels as u8)),
{
    if offset_pixels == 0 {
        assert(blend(*dst, src, 0u8) == *dst) by {
            let d: u8 = *dst;
            assert((d & !0u8) | (src & 0u8) == d) by (bit_vector);
        }
        return ;
    }
    assert(1 <= (1u8 << offset_pixels) && (1u8 << offset_pixels) == (1u8 << (offset_pixels as u8)))
        by (bit_vector)
        requires
            offset_pixels < 8,
    ;
    let padding_mask: u8 = (1u8 << offset_pixels) - 1;
    *dst = (*dst & !padding_mask) | (src & padding_mask);
}

} // verus!
