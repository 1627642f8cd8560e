//! Where a pixel lies in a packed buffer, and what writing it does.
//!
//! A plane stores its rows one after the other, each in [`line_bytes_of`]
//! bytes, eight pixels to the byte. A buffer of two planes holds the first in
//! its front half and the second in its back half. A display that is turned
//! keeps this layout: the rotation only decides which of the stored pixels a
//! point of the caller means.

use vstd::prelude::*;
use crate::bits::{bit_is_set, with_bit, lemma_with_bit_same, lemma_with_bit_other};
use crate::color::ColorType;
use crate::geometry::{Pixel, Point, Size};
use crate::graphics::DisplayRotation;

verus! {

/// Bytes in one row of `width` pixels at `bits_per_pixel` bits each, the last
/// byte padded where the row does not fill it.
pub open spec fn line_bytes_of(width: int, bits_per_pixel: int) -> int {
    (width * bits_per_pixel + 7) / 8
}

/// Bytes that a buffer of `width` by `height` pixels takes, all its planes
/// together.
pub open spec fn frame_bytes<C: ColorType>(width: int, height: int) -> int {
    height * line_bytes_of(width, C::bits_per_pixel() * C::planes())
}

/// Where the point `(x, y)` of the turned display lies in a buffer of `width`
/// by `height` pixels: its column and its row.
pub open spec fn rotated(rotation: DisplayRotation, width: int, height: int, x: int, y: int) -> (
    int,
    int,
) {
    match rotation {
        DisplayRotation::Rotate0 => (x, y),
        DisplayRotation::Rotate90 => (width - 1 - y, x),
        DisplayRotation::Rotate180 => (width - 1 - x, height - 1 - y),
        DisplayRotation::Rotate270 => (y, height - 1 - x),
    }
}

/// The extent of a display of `width` by `height` pixels once it is turned: a
/// quarter turn swaps the two.
pub open spec fn turned_size(rotation: DisplayRotation, width: u32, height: u32) -> Size {
    match rotation {
        DisplayRotation::Rotate0 | DisplayRotation::Rotate180 => Size { width, height },
        DisplayRotation::Rotate90 | DisplayRotation::Rotate270 => Size {
            width: height,
            height: width,
        },
    }
}

/// Whether column `col` and row `row` lie inside `width` by `height` pixels.
pub open spec fn in_frame(width: int, height: int, col: int, row: int) -> bool {
    0 <= col < width && 0 <= row < height
}

/// The index, inside its plane, of the byte that holds the pixel at `col` and
/// `row`.
pub open spec fn byte_index<C: ColorType>(width: int, col: int, row: int) -> int {
    col * C::bits_per_pixel() / 8 + row * line_bytes_of(
        width,
        C::bits_per_pixel(),
    )
}

/// How far the second plane lies behind the first in a buffer of `len` bytes;
/// nothing where there is one plane only.
pub open spec fn plane_offset<C: ColorType>(len: int) -> int {
    if C::planes() == 2 {
        len / 2
    } else {
        0
    }
}

/// Whether a buffer of `len` bytes has room for the point `(x, y)`: a point
/// that falls inside the frame must have its byte inside the buffer, in every
/// plane. A point outside the frame needs no room.
pub open spec fn has_room_at<C: ColorType>(
    len: int,
    width: int,
    height: int,
    rotation: DisplayRotation,
    x: int,
    y: int,
) -> bool {
    let (col, row) = rotated(rotation, width, height, x, y);
    in_frame(width, height, col, row) ==> byte_index::<C>(width, col, row) + plane_offset::<C>(len)
        < len
}

/// Whether a buffer of `len` bytes has room for `point`.
pub open spec fn has_room<C: ColorType>(
    len: int,
    width: int,
    height: int,
    rotation: DisplayRotation,
    point: Point,
) -> bool {
    has_room_at::<C>(len, width, height, rotation, point.x as int, point.y as int)
}

/// Whether a buffer of `len` bytes holds every row of every plane where the
/// pixel writer looks for it: the rows of one plane take no more than the
/// part of the buffer that belongs to that plane.
pub open spec fn planes_fit<C: ColorType>(len: int, width: int, height: int) -> bool {
    height * line_bytes_of(width, C::bits_per_pixel()) <= (if C::planes() == 2 {
        len / 2
    } else {
        len
    })
}

/// The buffer `bytes` after the point `(x, y)` has been written in `color`.
///
/// A point that the rotation carries outside the frame changes nothing. One
/// inside has its bit set or cleared in the first plane and, where there are
/// two, in the second.
pub open spec fn with_color_at<C: ColorType>(
    bytes: Seq<u8>,
    width: int,
    height: int,
    rotation: DisplayRotation,
    bwrbit: bool,
    x: int,
    y: int,
    color: C,
) -> Seq<u8> {
    let (col, row) = rotated(rotation, width, height, x, y);
    if !in_frame(width, height, col, row) {
        bytes
    } else {
        let i = byte_index::<C>(width, col, row);
        let k = (col % 8) as u8;
        let first = bytes.update(i, with_bit(bytes[i], k, color.plane_bits(bwrbit).0));
        if C::planes() == 2 {
            let j = i + bytes.len() / 2;
            first.update(j, with_bit(first[j], k, color.plane_bits(bwrbit).1))
        } else {
            first
        }
    }
}

/// The buffer `bytes` after `pixel` has been written into it.
pub open spec fn with_pixel<C: ColorType>(
    bytes: Seq<u8>,
    width: int,
    height: int,
    rotation: DisplayRotation,
    bwrbit: bool,
    pixel: Pixel<C>,
) -> Seq<u8> {
    with_color_at(bytes, width, height, rotation, bwrbit, pixel.0.x as int, pixel.0.y as int, pixel.1)
}

/// The buffer `bytes` after the pixels of `pixels` have been written into it,
/// the first of them first.
pub open spec fn with_pixels<C: ColorType>(
    bytes: Seq<u8>,
    width: int,
    height: int,
    rotation: DisplayRotation,
    bwrbit: bool,
    pixels: Seq<Pixel<C>>,
) -> Seq<u8>
    decreases pixels.len(),
{
    if pixels.len() == 0 {
        bytes
    } else {
        with_pixel(
            with_pixels(bytes, width, height, rotation, bwrbit, pixels.drop_last()),
            width,
            height,
            rotation,
            bwrbit,
            pixels.last(),
        )
    }
}

/// The colour that `bytes` shows at column `col` and row `row`.
pub open spec fn color_at<C: ColorType>(bytes: Seq<u8>, width: int, col: int, row: int) -> C {
    let i = byte_index::<C>(width, col, row);
    let k = (col % 8) as u8;
    C::from_plane_bits(
        bit_is_set(bytes[i], k),
        C::planes() == 2 && bit_is_set(bytes[i + bytes.len() / 2], k),
    )
}

/// Inside the frame, the byte of a pixel lies inside the rows of its plane.
pub proof fn lemma_byte_index_bounds<C: ColorType>(width: int, height: int, col: int, row: int)
    requires
        in_frame(width, height, col, row),
    ensures
        0 <= byte_index::<C>(width, col, row) < height * line_bytes_of(width, 1),
        byte_index::<C>(width, col, row) == col / 8 + row * line_bytes_of(width, 1),
        col / 8 < line_bytes_of(width, 1),
{
    C::lemma_layout();
    let stride = line_bytes_of(width, 1);
    assert(row * stride + stride <= height * stride) by (nonlinear_arith)
        requires
            0 <= row < height,
            0 <= stride,
    ;
}

/// Two pixels of the frame share a byte only if they lie in one row and in
/// one group of eight columns.
pub proof fn lemma_byte_index_apart<C: ColorType>(
    width: int,
    height: int,
    col: int,
    row: int,
    other_col: int,
    other_row: int,
)
    requires
        in_frame(width, height, col, row),
        in_frame(width, height, other_col, other_row),
        row != other_row || col / 8 != other_col / 8,
    ensures
        byte_index::<C>(width, col, row) != byte_index::<C>(width, other_col, other_row),
{
    lemma_byte_index_bounds::<C>(width, height, col, row);
    lemma_byte_index_bounds::<C>(width, height, other_col, other_row);
    let stride = line_bytes_of(width, 1);
    if row < other_row {
        assert(other_row * stride >= row * stride + stride) by (nonlinear_arith)
            requires
                row < other_row,
                0 <= stride,
        ;
    } else if other_row < row {
        assert(row * stride >= other_row * stride + stride) by (nonlinear_arith)
            requires
                other_row < row,
                0 <= stride,
        ;
    }
}

/// Where the planes fit, the buffer has room for every point.
pub proof fn lemma_planes_fit_has_room<C: ColorType>(
    len: int,
    width: int,
    height: int,
    rotation: DisplayRotation,
    x: int,
    y: int,
)
    requires
        0 <= len,
        planes_fit::<C>(len, width, height),
    ensures
        has_room_at::<C>(len, width, height, rotation, x, y),
{
    C::lemma_layout();
    let (col, row) = rotated(rotation, width, height, x, y);
    if in_frame(width, height, col, row) {
        lemma_byte_index_bounds::<C>(width, height, col, row);
    }
}

/// The length of a buffer is that of its planes taken one by one, where a row
/// of all planes together ends on the same byte as the rows of the single
/// planes do: with one plane, or with a width that leaves no more than three
/// of the eight columns of its last byte free.
pub proof fn lemma_frame_bytes_by_planes<C: ColorType>(width: int, height: int)
    requires
        0 <= width,
        0 <= height,
        C::planes() == 1 || width % 8 == 0 || width % 8 >= 5,
    ensures
        frame_bytes::<C>(width, height) == C::planes() * (height * line_bytes_of(
            width,
            C::bits_per_pixel(),
        )),
        planes_fit::<C>(frame_bytes::<C>(width, height), width, height),
{
    C::lemma_layout();
    if C::planes() == 2 {
        let one = line_bytes_of(width, 1);
        assert(height * (2 * one) == 2 * (height * one)) by (nonlinear_arith);
    }
}

/// Writing a point never changes how long the buffer is.
pub proof fn lemma_with_color_at_len<C: ColorType>(
    bytes: Seq<u8>,
    width: int,
    height: int,
    rotation: DisplayRotation,
    bwrbit: bool,
    x: int,
    y: int,
    color: C,
)
    requires
        has_room_at::<C>(bytes.len() as int, width, height, rotation, x, y),
    ensures
        with_color_at(bytes, width, height, rotation, bwrbit, x, y, color).len() == bytes.len(),
{
    C::lemma_layout();
    let (col, row) = rotated(rotation, width, height, x, y);
    if in_frame(width, height, col, row) {
        lemma_byte_index_bounds::<C>(width, height, col, row);
    }
}

/// Writing a pixel never changes how long the buffer is.
pub proof fn lemma_with_pixel_len<C: ColorType>(
    bytes: Seq<u8>,
    width: int,
    height: int,
    rotation: DisplayRotation,
    bwrbit: bool,
    pixel: Pixel<C>,
)
    requires
        has_room::<C>(bytes.len() as int, width, height, rotation, pixel.0),
    ensures
        with_pixel(bytes, width, height, rotation, bwrbit, pixel).len() == bytes.len(),
{
    lemma_with_color_at_len(
        bytes,
        width,
        height,
        rotation,
        bwrbit,
        pixel.0.x as int,
        pixel.0.y as int,
        pixel.1,
    );
}

/// A point lies inside the turned display exactly if the rotation carries it
/// inside the buffer's frame.
pub proof fn lemma_rotation_keeps_frame(
    rotation: DisplayRotation,
    width: u32,
    height: u32,
    point: Point,
)
    ensures
        ({
            let (col, row) = rotated(
                rotation,
                width as int,
                height as int,
                point.x as int,
                point.y as int,
            );
            in_frame(width as int, height as int, col, row) <==> in_frame(
                turned_size(rotation, width, height).width as int,
                turned_size(rotation, width, height).height as int,
                point.x as int,
                point.y as int,
            )
        }),
{
}

/// Under every rotation, a pixel written inside the display reads back, at
/// the place that the rotation gives it, in the colour that was written.
///
/// The buffer must have room for the point, and one of two planes needs two
/// bytes at least: in a single byte the second plane would lie on the first.
pub proof fn lemma_written_pixel_reads_back<C: ColorType>(
    bytes: Seq<u8>,
    width: u32,
    height: u32,
    rotation: DisplayRotation,
    bwrbit: bool,
    pixel: Pixel<C>,
)
    requires
        in_frame(
            turned_size(rotation, width, height).width as int,
            turned_size(rotation, width, height).height as int,
            pixel.0.x as int,
            pixel.0.y as int,
        ),
        has_room::<C>(bytes.len() as int, width as int, height as int, rotation, pixel.0),
        C::planes() == 2 ==> bytes.len() >= 2,
    ensures
        ({
            let (col, row) = rotated(
                rotation,
                width as int,
                height as int,
                pixel.0.x as int,
                pixel.0.y as int,
            );
            color_at::<C>(
                with_pixel(bytes, width as int, height as int, rotation, bwrbit, pixel),
                width as int,
                col,
                row,
            ) == pixel.1
        }),
{
    lemma_rotation_keeps_frame(rotation, width, height, pixel.0);
    lemma_written_color_reads_back(
        bytes,
        width as int,
        height as int,
        rotation,
        bwrbit,
        pixel.0.x as int,
        pixel.0.y as int,
        pixel.1,
    );
}

/// A colour written at a point that the rotation carries inside the frame
/// reads back, at the place that the rotation gives the point, as written.
pub proof fn lemma_written_color_reads_back<C: ColorType>(
    bytes: Seq<u8>,
    width: int,
    height: int,
    rotation: DisplayRotation,
    bwrbit: bool,
    x: int,
    y: int,
    color: C,
)
    requires
        in_frame(width, height, rotated(rotation, width, height, x, y).0, rotated(
            rotation,
            width,
            height,
            x,
            y,
        ).1),
        has_room_at::<C>(bytes.len() as int, width, height, rotation, x, y),
        C::planes() == 2 ==> bytes.len() >= 2,
    ensures
        color_at::<C>(
            with_color_at(bytes, width, height, rotation, bwrbit, x, y, color),
            width,
            rotated(rotation, width, height, x, y).0,
            rotated(rotation, width, height, x, y).1,
        ) == color,
{
    C::lemma_layout();
    color.lemma_bits_tell_color(bwrbit);
    let (col, row) = rotated(rotation, width, height, x, y);
    lemma_byte_index_bounds::<C>(width, height, col, row);
    let i = byte_index::<C>(width, col, row);
    let k = (col % 8) as u8;
    lemma_with_bit_same(bytes[i], k, color.plane_bits(bwrbit).0);
    if C::planes() == 2 {
        let first = bytes.update(i, with_bit(bytes[i], k, color.plane_bits(bwrbit).0));
        let j = i + bytes.len() / 2;
        lemma_with_bit_same(first[j], k, color.plane_bits(bwrbit).1);
    }
}

/// A pixel written outside the display leaves the buffer as it was.
pub proof fn lemma_outside_pixel_changes_nothing<C: ColorType>(
    bytes: Seq<u8>,
    width: u32,
    height: u32,
    rotation: DisplayRotation,
    bwrbit: bool,
    pixel: Pixel<C>,
)
    requires
        !in_frame(
            turned_size(rotation, width, height).width as int,
            turned_size(rotation, width, height).height as int,
            pixel.0.x as int,
            pixel.0.y as int,
        ),
    ensures
        with_pixel(bytes, width as int, height as int, rotation, bwrbit, pixel) == bytes,
{
    lemma_rotation_keeps_frame(rotation, width, height, pixel.0);
}

/// Where the planes fit, writing one pixel leaves every other pixel of the
/// frame in its colour.
pub proof fn lemma_other_pixels_stay<C: ColorType>(
    bytes: Seq<u8>,
    width: u32,
    height: u32,
    rotation: DisplayRotation,
    bwrbit: bool,
    pixel: Pixel<C>,
    col: int,
    row: int,
)
    requires
        planes_fit::<C>(bytes.len() as int, width as int, height as int),
        in_frame(width as int, height as int, col, row),
        (col, row) != rotated(
            rotation,
            width as int,
            height as int,
            pixel.0.x as int,
            pixel.0.y as int,
        ),
    ensures
        color_at::<C>(
            with_pixel(bytes, width as int, height as int, rotation, bwrbit, pixel),
            width as int,
            col,
            row,
        ) == color_at::<C>(bytes, width as int, col, row),
{
    C::lemma_layout();
    let w = width as int;
    let h = height as int;
    let (wcol, wrow) = rotated(rotation, w, h, pixel.0.x as int, pixel.0.y as int);
    if in_frame(w, h, wcol, wrow) {
        lemma_byte_index_bounds::<C>(w, h, wcol, wrow);
        lemma_byte_index_bounds::<C>(w, h, col, row);
        let i = byte_index::<C>(w, wcol, wrow);
        let k = (wcol % 8) as u8;
        let q = (col % 8) as u8;
        let half = bytes.len() as int / 2;
        let low = pixel.1.plane_bits(bwrbit).0;
        let high = pixel.1.plane_bits(bwrbit).1;
        let first = bytes.update(i, with_bit(bytes[i], k, low));
        if row != wrow || col / 8 != wcol / 8 {
            lemma_byte_index_apart::<C>(w, h, col, row, wcol, wrow);
        } else {
            lemma_with_bit_other(bytes[i], k, low, q);
            if C::planes() == 2 {
                lemma_with_bit_other(first[i + half], k, high, q);
            }
        }
    }
}

} // verus!
