//! Windows of a display, and what it takes to send one to the panel.
//!
//! The panel takes a window only from one byte boundary to another. A window
//! that starts or ends inside a byte is widened to the nearest boundaries, and
//! the columns that this adds on either side, the padding, have to show what
//! the display shows there. This module says where the widened window lies,
//! which byte of the display lies under which byte of the window, and what
//! both hold once the padding has been filled in.

use vstd::prelude::*;
use vstd::arithmetic::div_mod::{lemma_fundamental_div_mod, lemma_fundamental_div_mod_converse};
use crate::bits::{
    bit_is_set,
    blend,
    left_mask,
    right_mask,
    lemma_blend_bit,
    lemma_left_mask_bit,
    lemma_or_bit,
    lemma_right_mask_bit,
};
use crate::color::ColorType;
use crate::geometry::Pixel;
use crate::graphics::DisplayRotation;
use crate::layout::{
    byte_index,
    color_at,
    frame_bytes,
    in_frame,
    line_bytes_of,
    planes_fit,
    with_color_at,
    has_room_at,
    lemma_byte_index_bounds,
    lemma_frame_bytes_by_planes,
    lemma_planes_fit_has_room,
    lemma_with_color_at_len,
    lemma_written_color_reads_back,
};

verus! {

/// A rectangle of pixels on a display that is not turned.
#[derive(Clone, Copy, PartialEq, Eq, Debug, Structural)]
pub struct Window {
    /// The leftmost column.
    pub x: u32,
    /// The topmost row.
    pub y: u32,
    /// Columns.
    pub width: u32,
    /// Rows.
    pub height: u32,
}

/// The column at which the byte of column `x` starts.
pub open spec fn aligned_x_of(x: int) -> int {
    x - x % 8
}

/// The column behind the byte that holds the last column of a window of
/// `width` columns from `x` on.
pub open spec fn aligned_end_of(x: int, width: int) -> int {
    (x + width - 1) - (x + width - 1) % 8 + 8
}

/// The columns of the widened window: from the byte boundary at or before `x`
/// to the one behind the last column.
pub open spec fn aligned_width_of(x: int, width: int) -> int {
    aligned_end_of(x, width) - aligned_x_of(x)
}

/// The widened window starts on a byte boundary at or before the window, is a
/// whole number of bytes wide, and ends at or behind the window's end.
pub proof fn lemma_alignment(x: int, width: int)
    ensures
        aligned_x_of(x) <= x,
        aligned_x_of(x) % 8 == 0,
        aligned_x_of(x) + aligned_width_of(x, width) >= x + width,
        aligned_width_of(x, width) % 8 == 0,
        x - aligned_x_of(x) < 8,
        aligned_x_of(x) + aligned_width_of(x, width) - (x + width) < 8,
{
}

/// Bytes in one row of the widened window.
pub open spec fn row_bytes(w: Window) -> int {
    aligned_width_of(w.x as int, w.width as int) / 8
}

/// Columns that the widened window has to the left of the window.
pub open spec fn left_padding(w: Window) -> int {
    w.x - aligned_x_of(w.x as int)
}

/// Columns that the widened window has to the right of the window.
pub open spec fn right_padding(w: Window) -> int {
    aligned_width_of(w.x as int, w.width as int) - left_padding(w) - w.width
}

/// The pixels of byte `c` of a row of the widened window that are padding: the
/// left padding in the first byte, the right padding in the last.
pub open spec fn padding_mask(w: Window, c: int) -> u8 {
    (if c == 0 {
        left_mask(left_padding(w) as u8)
    } else {
        0u8
    }) | (if c == row_bytes(w) - 1 {
        right_mask(right_padding(w) as u8)
    } else {
        0u8
    })
}

/// Where the point `(x, y)` of a window lies in the widened window: moved by
/// the left padding, along the axis and in the direction that the rotation
/// gives to the columns of the buffer.
pub open spec fn shifted(rotation: DisplayRotation, padding: int, x: int, y: int) -> (int, int) {
    match rotation {
        DisplayRotation::Rotate0 => (x + padding, y),
        DisplayRotation::Rotate90 => (x, y + padding),
        DisplayRotation::Rotate180 => (x - padding, y),
        DisplayRotation::Rotate270 => (x, y - padding),
    }
}

/// The buffer of a widened window after the pixels of `pixels` have been
/// written into it, the first of them first, each moved by the left padding.
pub open spec fn with_window_pixels<C: ColorType>(
    bytes: Seq<u8>,
    width: int,
    height: int,
    rotation: DisplayRotation,
    bwrbit: bool,
    padding: int,
    pixels: Seq<Pixel<C>>,
) -> Seq<u8>
    decreases pixels.len(),
{
    if pixels.len() == 0 {
        bytes
    } else {
        let (x, y) = shifted(
            rotation,
            padding,
            pixels.last().0.x as int,
            pixels.last().0.y as int,
        );
        with_color_at(
            with_window_pixels(bytes, width, height, rotation, bwrbit, padding, pixels.drop_last()),
            width,
            height,
            rotation,
            bwrbit,
            x,
            y,
            pixels.last().1,
        )
    }
}

/// The part of a buffer of `size` bytes that one plane has: all of it, or half
/// where there are two planes.
pub open spec fn plane_len<C: ColorType>(size: int) -> int {
    if C::planes() == 2 {
        size / 2
    } else {
        size
    }
}

/// Whether the window can be cut from a display of `full_width` columns whose
/// buffer has `full_size` bytes: it has a byte to live in, and it lies, widened,
/// within the bytes of the rows and within the rows that one plane holds.
pub open spec fn window_fits<C: ColorType>(w: Window, full_width: int, full_size: int) -> bool {
    &&& w.width > 0 || w.x % 8 != 0
    &&& aligned_end_of(w.x as int, w.width as int) <= 8 * line_bytes_of(full_width, 1)
    &&& (w.y + w.height) * line_bytes_of(full_width, 1) <= plane_len::<C>(full_size)
}

/// The index, in the buffer of the window, of byte `c` of row `r` of plane `p`.
pub open spec fn frame_index(w: Window, p: int, r: int, c: int) -> int {
    p * (w.height * row_bytes(w)) + r * row_bytes(w) + c
}

/// The index, in the buffer of the display, of the byte that lies under byte
/// `c` of row `r` of plane `p` of the window.
pub open spec fn parent_index<C: ColorType>(
    w: Window,
    full_width: int,
    full_size: int,
    p: int,
    r: int,
    c: int,
) -> int {
    p * plane_len::<C>(full_size) + (w.y + r) * line_bytes_of(full_width, 1) + aligned_x_of(
        w.x as int,
    ) / 8 + c
}

/// The plane, the row and the byte of the row at which index `k` of the
/// window's buffer lies.
pub open spec fn frame_place(w: Window, k: int) -> (int, int, int) {
    let plane = w.height * row_bytes(w);
    (k / plane, (k % plane) / row_bytes(w), (k % plane) % row_bytes(w))
}

/// The index of the byte of the window that lies over byte `j` of the display,
/// if one does.
pub open spec fn frame_byte_over<C: ColorType>(
    w: Window,
    full_width: int,
    full_size: int,
    j: int,
) -> Option<int> {
    let stride = line_bytes_of(full_width, 1);
    let cap = plane_len::<C>(full_size);
    let p = j / cap;
    let r = (j % cap) / stride - w.y;
    let c = (j % cap) % stride - aligned_x_of(w.x as int) / 8;
    if 0 <= j && 0 < cap && 0 < stride && p < C::planes() && 0 <= r < w.height && 0 <= c
        < row_bytes(w) {
        Some(frame_index(w, p, r, c))
    } else {
        None
    }
}

/// What byte `k` of the window holds once its padding shows the display.
pub open spec fn reconciled_byte<C: ColorType>(
    frame: Seq<u8>,
    parent: Seq<u8>,
    w: Window,
    full_width: int,
    full_size: int,
    k: int,
) -> u8 {
    let (p, r, c) = frame_place(w, k);
    blend(
        frame[k],
        parent[parent_index::<C>(w, full_width, full_size, p, r, c)],
        padding_mask(w, c),
    )
}

/// The buffer of the window once its first `done` bytes have been reconciled
/// with the display.
pub open spec fn frame_after<C: ColorType>(
    frame: Seq<u8>,
    parent: Seq<u8>,
    w: Window,
    full_width: int,
    full_size: int,
    done: int,
) -> Seq<u8> {
    Seq::new(
        frame.len(),
        |k: int|
            if k < done {
                reconciled_byte::<C>(frame, parent, w, full_width, full_size, k)
            } else {
                frame[k]
            },
    )
}

/// The buffer of the display once the first `done` bytes of the window have
/// been reconciled and copied back.
pub open spec fn parent_after<C: ColorType>(
    frame: Seq<u8>,
    parent: Seq<u8>,
    w: Window,
    full_width: int,
    full_size: int,
    done: int,
) -> Seq<u8> {
    Seq::new(
        parent.len(),
        |j: int|
            match frame_byte_over::<C>(w, full_width, full_size, j) {
                Some(k) => if k < done {
                    reconciled_byte::<C>(frame, parent, w, full_width, full_size, k)
                } else {
                    parent[j]
                },
                None => parent[j],
            },
    )
}

/// The buffer of the window as the panel is to get it: what was drawn inside
/// the window, and in the padding what the display shows there.
pub open spec fn reconciled_frame<C: ColorType>(
    frame: Seq<u8>,
    parent: Seq<u8>,
    w: Window,
    full_width: int,
    full_size: int,
) -> Seq<u8> {
    frame_after::<C>(frame, parent, w, full_width, full_size, frame.len() as int)
}

/// The buffer of the display once the window has been copied back into it:
/// under the widened window it holds the reconciled window, elsewhere what
/// it held.
pub open spec fn reconciled_parent<C: ColorType>(
    frame: Seq<u8>,
    parent: Seq<u8>,
    w: Window,
    full_width: int,
    full_size: int,
) -> Seq<u8> {
    parent_after::<C>(frame, parent, w, full_width, full_size, frame.len() as int)
}

/// A widened window that has a byte to live in is at least one byte wide.
pub proof fn lemma_row_bytes(w: Window)
    requires
        w.width > 0 || w.x % 8 != 0,
    ensures
        row_bytes(w) >= 1,
        8 * row_bytes(w) == aligned_width_of(w.x as int, w.width as int),
        0 <= left_padding(w) < 8,
        0 <= right_padding(w) < 8,
        aligned_x_of(w.x as int) == 8 * (aligned_x_of(w.x as int) / 8),
        aligned_end_of(w.x as int, w.width as int) == 8 * (aligned_x_of(w.x as int) / 8
            + row_bytes(w)),
{
}

/// The widened window takes no more bytes than the display has: its buffer
/// can be made.
pub proof fn lemma_frame_fits_parent<C: ColorType>(w: Window, full_width: int, full_size: int)
    requires
        window_fits::<C>(w, full_width, full_size),
        0 <= full_size,
    ensures
        frame_bytes::<C>(aligned_width_of(w.x as int, w.width as int), w.height as int)
            == C::planes() * (w.height * row_bytes(w)),
        frame_bytes::<C>(aligned_width_of(w.x as int, w.width as int), w.height as int)
            <= full_size,
        w.height * row_bytes(w) <= plane_len::<C>(full_size),
        row_bytes(w) <= line_bytes_of(full_width, 1),
{
    C::lemma_layout();
    lemma_row_bytes(w);
    let aw = aligned_width_of(w.x as int, w.width as int);
    let rb = row_bytes(w);
    let stride = line_bytes_of(full_width, 1);
    let cap = plane_len::<C>(full_size);
    lemma_frame_bytes_by_planes::<C>(aw, w.height as int);
    assert(w.height * rb <= (w.y + w.height) * stride) by (nonlinear_arith)
        requires
            0 <= rb <= stride,
            0 <= w.height,
            0 <= w.y,
    ;
    assert(C::planes() * (w.height * rb) <= full_size) by (nonlinear_arith)
        requires
            w.height * rb <= cap,
            C::planes() == 2 ==> 2 * cap <= full_size,
            C::planes() == 1 ==> cap == full_size,
            1 <= C::planes() <= 2,
    ;
}

/// The index of a byte of the window tells its plane, its row and its place in
/// the row.
pub proof fn lemma_frame_place(w: Window, p: int, r: int, c: int)
    requires
        0 <= p,
        0 <= r < w.height,
        0 <= c < row_bytes(w),
    ensures
        frame_place(w, frame_index(w, p, r, c)) == (p, r, c),
        p * (w.height * row_bytes(w)) <= frame_index(w, p, r, c) < (p + 1) * (w.height * row_bytes(
            w,
        )),
{
    let rb = row_bytes(w);
    let plane = w.height * rb;
    let within = r * rb + c;
    assert(0 <= within < plane) by (nonlinear_arith)
        requires
            within == r * rb + c,
            plane == w.height * rb,
            0 <= r < w.height,
            0 <= c < rb,
    ;
    let k = frame_index(w, p, r, c);
    lemma_fundamental_div_mod_converse(k, plane, p, within);
    lemma_fundamental_div_mod_converse(within, rb, r, c);
    assert((p + 1) * plane == p * plane + plane) by (nonlinear_arith);
}

/// Under each byte of a window that fits lies one byte of the display, inside
/// the plane of that byte, and over that byte of the display lies this byte
/// of the window and no other.
pub proof fn lemma_parent_index<C: ColorType>(
    w: Window,
    full_width: int,
    full_size: int,
    p: int,
    r: int,
    c: int,
)
    requires
        window_fits::<C>(w, full_width, full_size),
        0 <= full_size,
        0 <= p < C::planes(),
        0 <= r < w.height,
        0 <= c < row_bytes(w),
    ensures
        frame_byte_over::<C>(
            w,
            full_width,
            full_size,
            parent_index::<C>(w, full_width, full_size, p, r, c),
        ) == Some(frame_index(w, p, r, c)),
        0 <= parent_index::<C>(w, full_width, full_size, p, r, c) < full_size,
{
    C::lemma_layout();
    lemma_row_bytes(w);
    let stride = line_bytes_of(full_width, 1);
    let cap = plane_len::<C>(full_size);
    let xb = aligned_x_of(w.x as int) / 8;
    let row = w.y + r;
    let within = row * stride + xb + c;
    assert(0 <= within < cap) by (nonlinear_arith)
        requires
            within == row * stride + xb + c,
            0 <= xb + c < stride,
            0 <= row < w.y + w.height,
            (w.y + w.height) * stride <= cap,
    ;
    let j = parent_index::<C>(w, full_width, full_size, p, r, c);
    lemma_fundamental_div_mod_converse(j, cap, p, within);
    lemma_fundamental_div_mod_converse(within, stride, row, xb + c);
    assert(p * cap + cap <= full_size) by (nonlinear_arith)
        requires
            0 <= p < C::planes(),
            0 <= cap,
            C::planes() == 2 ==> 2 * cap <= full_size,
            C::planes() == 1 ==> cap == full_size,
            1 <= C::planes() <= 2,
    ;
}

/// A byte of the display that lies under the window lies under exactly the
/// byte of the window that [`frame_byte_over`] names.
pub proof fn lemma_frame_byte_over<C: ColorType>(
    w: Window,
    full_width: int,
    full_size: int,
    j: int,
)
    requires
        frame_byte_over::<C>(w, full_width, full_size, j) is Some,
    ensures
        ({
            let k = frame_byte_over::<C>(w, full_width, full_size, j)->0;
            let (p, r, c) = frame_place(w, k);
            &&& 0 <= p < C::planes()
            &&& 0 <= r < w.height
            &&& 0 <= c < row_bytes(w)
            &&& k == frame_index(w, p, r, c)
            &&& j == parent_index::<C>(w, full_width, full_size, p, r, c)
            &&& 0 <= k < C::planes() * (w.height * row_bytes(w))
        }),
{
    let stride = line_bytes_of(full_width, 1);
    let cap = plane_len::<C>(full_size);
    let p = j / cap;
    let r = (j % cap) / stride - w.y;
    let c = (j % cap) % stride - aligned_x_of(w.x as int) / 8;
    lemma_fundamental_div_mod(j, cap);
    lemma_fundamental_div_mod(j % cap, stride);
    lemma_frame_place(w, p, r, c);
    assert(stride * ((j % cap) / stride) == (w.y + r) * stride) by (nonlinear_arith)
        requires
            (j % cap) / stride == w.y + r,
    ;
    let plane = w.height * row_bytes(w);
    assert((p + 1) * plane <= C::planes() * plane) by (nonlinear_arith)
        requires
            p + 1 <= C::planes(),
            0 <= plane,
    ;
}

/// Whether column `col` of row `row` of the display lies inside the window.
pub open spec fn in_window(w: Window, col: int, row: int) -> bool {
    w.x <= col < w.x + w.width && w.y <= row < w.y + w.height
}

/// Once a window has been reconciled and copied back, the window and the
/// display agree: each byte of the window equals the byte of the display
/// that lies under it.
pub proof fn lemma_window_and_display_agree<C: ColorType>(
    frame: Seq<u8>,
    parent: Seq<u8>,
    w: Window,
    full_width: int,
    full_size: int,
    p: int,
    r: int,
    c: int,
)
    requires
        window_fits::<C>(w, full_width, full_size),
        frame.len() == C::planes() * (w.height * row_bytes(w)),
        0 <= full_size <= parent.len(),
        0 <= p < C::planes(),
        0 <= r < w.height,
        0 <= c < row_bytes(w),
    ensures
        0 <= frame_index(w, p, r, c) < frame.len(),
        0 <= parent_index::<C>(w, full_width, full_size, p, r, c) < full_size,
        reconciled_parent::<C>(frame, parent, w, full_width, full_size)[parent_index::<C>(
            w,
            full_width,
            full_size,
            p,
            r,
            c,
        )] == reconciled_frame::<C>(frame, parent, w, full_width, full_size)[frame_index(
            w,
            p,
            r,
            c,
        )],
{
    lemma_frame_place(w, p, r, c);
    lemma_parent_index::<C>(w, full_width, full_size, p, r, c);
    let plane = w.height * row_bytes(w);
    assert((p + 1) * plane <= C::planes() * plane) by (nonlinear_arith)
        requires
            p + 1 <= C::planes(),
            0 <= plane,
    ;
}

/// What the display shows, pixel by pixel and in each plane, once a window
/// has been reconciled and copied back: inside the window what was drawn in
/// the window, and everywhere else, in the padding too, what the display
/// showed before.
pub proof fn lemma_reconciled_parent_bit<C: ColorType>(
    frame: Seq<u8>,
    parent: Seq<u8>,
    w: Window,
    full_width: int,
    full_size: int,
    p: int,
    col: int,
    row: int,
)
    requires
        window_fits::<C>(w, full_width, full_size),
        frame.len() == C::planes() * (w.height * row_bytes(w)),
        0 <= full_size <= parent.len(),
        0 <= p < C::planes(),
        0 <= col < 8 * line_bytes_of(full_width, 1),
        0 <= row,
        (row + 1) * line_bytes_of(full_width, 1) <= plane_len::<C>(full_size),
    ensures
        ({
            let j = p * plane_len::<C>(full_size) + row * line_bytes_of(full_width, 1) + col / 8;
            let k = frame_index(w, p, row - w.y, col / 8 - aligned_x_of(w.x as int) / 8);
            &&& 0 <= j < full_size
            &&& in_window(w, col, row) ==> 0 <= k < frame.len()
            &&& bit_is_set(
                reconciled_parent::<C>(frame, parent, w, full_width, full_size)[j],
                (col % 8) as u8,
            ) == (if in_window(w, col, row) {
                bit_is_set(frame[k], (col % 8) as u8)
            } else {
                bit_is_set(parent[j], (col % 8) as u8)
            })
        }),
{
    C::lemma_layout();
    lemma_row_bytes(w);
    let stride = line_bytes_of(full_width, 1);
    let cap = plane_len::<C>(full_size);
    let xb = aligned_x_of(w.x as int) / 8;
    let rb = row_bytes(w);
    let within = row * stride + col / 8;
    let j = p * cap + within;
    let q = (col % 8) as u8;
    assert(0 <= within < cap) by (nonlinear_arith)
        requires
            within == row * stride + col / 8,
            0 <= col / 8 < stride,
            0 <= row,
            (row + 1) * stride <= cap,
    ;
    lemma_fundamental_div_mod_converse(j, cap, p, within);
    lemma_fundamental_div_mod_converse(within, stride, row, col / 8);
    assert(p * cap + cap <= full_size) by (nonlinear_arith)
        requires
            0 <= p < C::planes(),
            0 <= cap,
            C::planes() == 2 ==> 2 * cap <= full_size,
            C::planes() == 1 ==> cap == full_size,
            1 <= C::planes() <= 2,
    ;
    let r = row - w.y;
    let c = col / 8 - xb;
    if 0 <= r < w.height && 0 <= c < rb {
        let k = frame_index(w, p, r, c);
        lemma_frame_place(w, p, r, c);
        let plane = w.height * rb;
        assert((p + 1) * plane <= C::planes() * plane) by (nonlinear_arith)
            requires
                p + 1 <= C::planes(),
                0 <= plane,
        ;
        let left = left_mask(left_padding(w) as u8);
        let right = right_mask(right_padding(w) as u8);
        lemma_blend_bit(frame[k], parent[j], padding_mask(w, c), q);
        lemma_left_mask_bit(left_padding(w) as u8, q);
        lemma_right_mask_bit(right_padding(w) as u8, q);
        lemma_left_mask_bit(0u8, q);
        lemma_or_bit(left, right, q);
        lemma_or_bit(left, 0u8, q);
        lemma_or_bit(0u8, right, q);
        lemma_or_bit(0u8, 0u8, q);
    }
}

/// Once a window has been reconciled and copied back, every pixel of the
/// display outside the window, the pixels of the padding among them, has the
/// colour that it had before, whatever was drawn in the window.
pub proof fn lemma_display_keeps_outside_window<C: ColorType>(
    frame: Seq<u8>,
    parent: Seq<u8>,
    w: Window,
    full_width: int,
    full_height: int,
    col: int,
    row: int,
)
    requires
        window_fits::<C>(w, full_width, parent.len() as int),
        frame.len() == frame_bytes::<C>(
            aligned_width_of(w.x as int, w.width as int),
            w.height as int,
        ),
        planes_fit::<C>(parent.len() as int, full_width, full_height),
        in_frame(full_width, full_height, col, row),
        !in_window(w, col, row),
    ensures
        color_at::<C>(
            reconciled_parent::<C>(frame, parent, w, full_width, parent.len() as int),
            full_width,
            col,
            row,
        ) == color_at::<C>(parent, full_width, col, row),
{
    C::lemma_layout();
    let size = parent.len() as int;
    lemma_frame_fits_parent::<C>(w, full_width, size);
    lemma_byte_index_bounds::<C>(full_width, full_height, col, row);
    let stride = line_bytes_of(full_width, 1);
    assert((row + 1) * stride <= full_height * stride) by (nonlinear_arith)
        requires
            0 <= row < full_height,
            0 <= stride,
    ;
    lemma_reconciled_parent_bit::<C>(frame, parent, w, full_width, size, 0, col, row);
    if C::planes() == 2 {
        lemma_reconciled_parent_bit::<C>(frame, parent, w, full_width, size, 1, col, row);
    }
}

/// Once a window has been reconciled and copied back, every pixel of the
/// display inside the window has the colour that was drawn at its place in
/// the window.
pub proof fn lemma_display_shows_window<C: ColorType>(
    frame: Seq<u8>,
    parent: Seq<u8>,
    w: Window,
    full_width: int,
    full_height: int,
    col: int,
    row: int,
)
    requires
        window_fits::<C>(w, full_width, parent.len() as int),
        frame.len() == frame_bytes::<C>(
            aligned_width_of(w.x as int, w.width as int),
            w.height as int,
        ),
        planes_fit::<C>(parent.len() as int, full_width, full_height),
        in_frame(full_width, full_height, col, row),
        in_window(w, col, row),
    ensures
        color_at::<C>(
            reconciled_parent::<C>(frame, parent, w, full_width, parent.len() as int),
            full_width,
            col,
            row,
        ) == color_at::<C>(
            frame,
            aligned_width_of(w.x as int, w.width as int),
            col - aligned_x_of(w.x as int),
            row - w.y,
        ),
{
    C::lemma_layout();
    let size = parent.len() as int;
    lemma_row_bytes(w);
    lemma_frame_fits_parent::<C>(w, full_width, size);
    lemma_byte_index_bounds::<C>(full_width, full_height, col, row);
    let stride = line_bytes_of(full_width, 1);
    let rb = row_bytes(w);
    let plane = w.height * rb;
    assert((row + 1) * stride <= full_height * stride) by (nonlinear_arith)
        requires
            0 <= row < full_height,
            0 <= stride,
    ;
    lemma_reconciled_parent_bit::<C>(frame, parent, w, full_width, size, 0, col, row);
    if C::planes() == 2 {
        lemma_reconciled_parent_bit::<C>(frame, parent, w, full_width, size, 1, col, row);
        assert(frame.len() as int / 2 == 1 * plane) by (nonlinear_arith)
            requires
                frame.len() == 2 * plane,
        ;
    }
    let aw = aligned_width_of(w.x as int, w.width as int);
    let inner = col - aligned_x_of(w.x as int);
    lemma_byte_index_bounds::<C>(aw, w.height as int, inner, row - w.y);
    assert(line_bytes_of(aw, 1) == rb) by (nonlinear_arith)
        requires
            aw == 8 * rb,
            line_bytes_of(aw, 1) == (aw * 1 + 7) / 8,
    ;
}

/// A pixel drawn inside a window that is not turned reaches the display: once
/// the window has been reconciled and copied back, the display shows the
/// colour at the place of the window's point `(x, y)`.
pub proof fn lemma_window_pixel_reaches_display<C: ColorType>(
    frame: Seq<u8>,
    parent: Seq<u8>,
    w: Window,
    full_width: int,
    full_height: int,
    bwrbit: bool,
    x: int,
    y: int,
    color: C,
)
    requires
        window_fits::<C>(w, full_width, parent.len() as int),
        frame.len() == frame_bytes::<C>(
            aligned_width_of(w.x as int, w.width as int),
            w.height as int,
        ),
        planes_fit::<C>(parent.len() as int, full_width, full_height),
        0 <= x < w.width,
        0 <= y < w.height,
        in_frame(full_width, full_height, w.x + x, w.y + y),
    ensures
        color_at::<C>(
            reconciled_parent::<C>(
                with_color_at(
                    frame,
                    aligned_width_of(w.x as int, w.width as int),
                    w.height as int,
                    DisplayRotation::Rotate0,
                    bwrbit,
                    x + left_padding(w),
                    y,
                    color,
                ),
                parent,
                w,
                full_width,
                parent.len() as int,
            ),
            full_width,
            w.x + x,
            w.y + y,
        ) == color,
{
    C::lemma_layout();
    lemma_row_bytes(w);
    let aw = aligned_width_of(w.x as int, w.width as int);
    let h = w.height as int;
    let inner = x + left_padding(w);
    lemma_frame_bytes_by_planes::<C>(aw, h);
    lemma_planes_fit_has_room::<C>(frame.len() as int, aw, h, DisplayRotation::Rotate0, inner, y);
    lemma_with_color_at_len(frame, aw, h, DisplayRotation::Rotate0, bwrbit, inner, y, color);
    let drawn = with_color_at(frame, aw, h, DisplayRotation::Rotate0, bwrbit, inner, y, color);
    if C::planes() == 2 {
        assert(frame.len() >= 2) by (nonlinear_arith)
            requires
                frame.len() == 2 * (h * (aw / 8)),
                h >= 1,
                aw >= 8,
        ;
    }
    lemma_written_color_reads_back(frame, aw, h, DisplayRotation::Rotate0, bwrbit, inner, y, color);
    lemma_display_shows_window::<C>(drawn, parent, w, full_width, full_height, w.x + x, w.y + y);
}

} // verus!
