//! The framebuffers: a display of fixed geometry, one over a borrowed buffer,
//! and the frame of a window of either.
//!
//! All three write their pixels with [`set_pixel`]. How the buffers are laid
//! out is told in [`crate::layout`], how a window is widened and reconciled
//! in [`crate::window`].

use vstd::prelude::*;
use std::marker::PhantomData;
use crate::bits::{
    left_mask,
    right_mask,
    copy_left_padding_bits,
    copy_right_padding_bits,
    lemma_blend_twice,
};
use crate::color::{ColorType, TriColor};
use crate::geometry::{Pixel, Point, Size};
use crate::layout::{
    byte_index,
    frame_bytes,
    has_room,
    has_room_at,
    in_frame,
    line_bytes_of,
    rotated,
    turned_size,
    with_color_at,
    with_pixel,
    with_pixels,
    lemma_frame_bytes_by_planes,
    lemma_planes_fit_has_room,
    lemma_with_color_at_len,
    lemma_with_pixel_len,
};
use crate::window::{
    Window,
    aligned_x_of,
    aligned_end_of,
    aligned_width_of,
    row_bytes,
    left_padding,
    right_padding,
    plane_len,
    window_fits,
    frame_place,
    parent_index,
    frame_byte_over,
    frame_after,
    parent_after,
    reconciled_frame,
    reconciled_parent,
    shifted,
    with_window_pixels,
    lemma_row_bytes,
    lemma_frame_fits_parent,
    lemma_frame_place,
    lemma_parent_index,
    lemma_frame_byte_over,
};

verus! {

/// How the display is turned, clockwise and in quarter turns. It decides where
/// later writes land; what the buffer already holds stays where it is.
#[derive(Clone, Copy, PartialEq, Eq, Debug, Structural)]
pub enum DisplayRotation {
    /// Not turned.
    Rotate0,
    /// Turned by 90 degrees.
    Rotate90,
    /// Turned by 180 degrees.
    Rotate180,
    /// Turned by 270 degrees.
    Rotate270,
}

impl Default for DisplayRotation {
    fn default() -> (r: Self)
        ensures
            r == DisplayRotation::Rotate0,
    {
        DisplayRotation::Rotate0
    }
}

/// Bytes in one row of `width` pixels at `bits_per_pixel` bits each.
pub fn line_bytes(width: u32, bits_per_pixel: usize) -> (n: u64)
    requires
        bits_per_pixel <= 8,
    ensures
        n == line_bytes_of(width as int, bits_per_pixel as int),
        n <= 0x1_0000_0000,
{
    assert(width as u64 * bits_per_pixel as u64 <= 0xFFFF_FFFF * 8) by (nonlinear_arith)
        requires
            width <= 0xFFFF_FFFF,
            bits_per_pixel <= 8,
    ;
    let bits: u64 = width as u64 * bits_per_pixel as u64;
    (bits + 7) / 8
}

/// The number of bytes that a buffer of `width` by `height` pixels takes.
pub fn frame_size<C: ColorType>(width: u32, height: u32) -> (n: u64)
    ensures
        n == frame_bytes::<C>(width as int, height as int),
{
    proof {
        C::lemma_layout();
    }
    let depth: usize = C::BITS_PER_PIXEL_PER_BUFFER * C::BUFFER_COUNT;
    let stride: u64 = line_bytes(width, depth);
    assert(width * depth <= 0xFFFF_FFFF * 2) by (nonlinear_arith)
        requires
            width <= 0xFFFF_FFFF,
            depth <= 2,
    ;
    assert(height as u64 * stride <= 0xFFFF_FFFF * 0x4000_0000) by (nonlinear_arith)
        requires
            height <= 0xFFFF_FFFF,
            stride <= 0x4000_0000,
    ;
    height as u64 * stride
}

/// Writes one pixel into `buffer`, which holds `width` by `height` pixels.
///
/// The displays of this module share it: each hands in its own buffer and
/// geometry.
pub fn set_pixel<C: ColorType>(
    buffer: &mut [u8],
    width: u32,
    height: u32,
    rotation: DisplayRotation,
    bwrbit: bool,
    pixel: Pixel<C>,
)
    requires
        has_room::<C>(old(buffer)@.len() as int, width as int, height as int, rotation, pixel.0),
    ensures
        final(buffer)@ == with_pixel(
            old(buffer)@,
            width as int,
            height as int,
            rotation,
            bwrbit,
            pixel,
        ),
{
    let Pixel(point, color) = pixel;
    set_color_at(buffer, width, height, rotation, bwrbit, point.x as i64, point.y as i64, color);
}

/// Writes the point `(x, y)` in `color` into `buffer`, which holds `width` by
/// `height` pixels. The point may lie anywhere within eight pixels of the
/// range of `i32`, so that a point of a display can be moved by less than a
/// byte before it is written.
pub fn set_color_at<C: ColorType>(
    buffer: &mut [u8],
    width: u32,
    height: u32,
    rotation: DisplayRotation,
    bwrbit: bool,
    point_x: i64,
    point_y: i64,
    color: C,
)
    requires
        -0x8000_0008 <= point_x <= 0x8000_0008,
        -0x8000_0008 <= point_y <= 0x8000_0008,
        has_room_at::<C>(
            old(buffer)@.len() as int,
            width as int,
            height as int,
            rotation,
            point_x as int,
            point_y as int,
        ),
    ensures
        final(buffer)@ == with_color_at(
            old(buffer)@,
            width as int,
            height as int,
            rotation,
            bwrbit,
            point_x as int,
            point_y as int,
            color,
        ),
{
    let (index, col): (u64, u32) = match place::<C>(width, height, rotation, point_x, point_y) {
        Some(place) => place,
        None => {
            return ;
        },
    };
    proof {
        C::lemma_layout();
    }
    let (mask, bits) = color.bitmask(bwrbit, col);
    let first: usize = index as usize;
    buffer[first] = buffer[first] & mask | (bits & 0xFF) as u8;
    if C::BUFFER_COUNT == 2 {
        let second: usize = first + buffer.len() / 2;
        buffer[second] = buffer[second] & mask | (bits >> 8) as u8;
    }
}

/// Where the point `(x, y)` lies in a buffer of `width` by `height` pixels: the
/// index of its byte inside the plane, and its column; nothing where the
/// rotation carries the point outside the frame.
fn place<C: ColorType>(
    width: u32,
    height: u32,
    rotation: DisplayRotation,
    point_x: i64,
    point_y: i64,
) -> (r: Option<(u64, u32)>)
    requires
        -0x8000_0008 <= point_x <= 0x8000_0008,
        -0x8000_0008 <= point_y <= 0x8000_0008,
    ensures
        ({
            let (col, row) = rotated(
                rotation,
                width as int,
                height as int,
                point_x as int,
                point_y as int,
            );
            match r {
                Some((index, column)) => in_frame(width as int, height as int, col, row) && index
                    == byte_index::<C>(width as int, col, row) && column == col,
                None => !in_frame(width as int, height as int, col, row),
            }
        }),
{
    let w: i64 = width as i64;
    let h: i64 = height as i64;
    let (x, y): (i64, i64) = match rotation {
        DisplayRotation::Rotate0 => (point_x, point_y),
        DisplayRotation::Rotate90 => (w - 1 - point_y, point_x),
        DisplayRotation::Rotate180 => (w - 1 - point_x, h - 1 - point_y),
        DisplayRotation::Rotate270 => (point_y, h - 1 - point_x),
    };
    if x < 0 || x >= w || y < 0 || y >= h {
        return None;
    }
    proof {
        C::lemma_layout();
    }
    let stride: u64 = line_bytes(width, C::BITS_PER_PIXEL_PER_BUFFER);
    assert(y as u64 * stride <= 0xFFFF_FFFF * 0x1_0000_0000) by (nonlinear_arith)
        requires
            0 <= y < 0x1_0000_0000,
            stride <= 0x1_0000_0000,
    ;
    let index: u64 = x as u64 * C::BITS_PER_PIXEL_PER_BUFFER as u64 / 8 + y as u64 * stride;
    Some((index, x as u32))
}

/// Whether a buffer of `len` bytes has room for `point`: whether
/// [`set_pixel`] may be called with it.
pub fn point_has_room<C: ColorType>(
    len: usize,
    width: u32,
    height: u32,
    rotation: DisplayRotation,
    point: Point,
) -> (ok: bool)
    ensures
        ok == has_room::<C>(len as int, width as int, height as int, rotation, point),
{
    match place::<C>(width, height, rotation, point.x as i64, point.y as i64) {
        Some((index, _)) => {
            proof {
                C::lemma_layout();
            }
            let offset: u64 = if C::BUFFER_COUNT == 2 {
                (len / 2) as u64
            } else {
                0
            };
            index < len as u64 && offset < len as u64 - index
        },
        None => true,
    }
}

/// Writes the pixels of `pixels` into `buffer`, the first of them first.
pub fn draw_pixels<C: ColorType>(
    buffer: &mut [u8],
    width: u32,
    height: u32,
    rotation: DisplayRotation,
    bwrbit: bool,
    pixels: &[Pixel<C>],
)
    requires
        forall|i: int|
            0 <= i < pixels@.len() ==> has_room::<C>(
                old(buffer)@.len() as int,
                width as int,
                height as int,
                rotation,
                (#[trigger] pixels@[i]).0,
            ),
    ensures
        final(buffer)@ == with_pixels(
            old(buffer)@,
            width as int,
            height as int,
            rotation,
            bwrbit,
            pixels@,
        ),
        final(buffer)@.len() == old(buffer)@.len(),
{
    let count: usize = pixels.len();
    let mut done: usize = 0;
    while done < count
        invariant
            count == pixels@.len(),
            done <= count,
            buffer@.len() == old(buffer)@.len(),
            buffer@ == with_pixels(
                old(buffer)@,
                width as int,
                height as int,
                rotation,
                bwrbit,
                pixels@.take(done as int),
            ),
            forall|i: int|
                0 <= i < pixels@.len() ==> has_room::<C>(
                    old(buffer)@.len() as int,
                    width as int,
                    height as int,
                    rotation,
                    (#[trigger] pixels@[i]).0,
                ),
        decreases count - done,
    {
        let next: &Pixel<C> = &pixels[done];
        proof {
            let before = pixels@.take(done as int);
            let after = pixels@.take(done as int + 1);
            assert(after.drop_last() == before);
            lemma_with_pixel_len(
                buffer@,
                width as int,
                height as int,
                rotation,
                bwrbit,
                pixels@[done as int],
            );
        }
        set_pixel(buffer, width, height, rotation, bwrbit, Pixel(next.0, next.1));
        done = done + 1;
    }
    proof {
        assert(pixels@.take(count as int) == pixels@);
    }
}

/// A framebuffer whose geometry is fixed by its type.
///
/// `WIDTH` and `HEIGHT` are the pixels of the display when it is not turned,
/// `BWRBIT` the polarity of a tri-colour panel (without meaning for a
/// monochrome one), and `BYTECOUNT` the length of the buffer:
/// [`frame_bytes`] of the width and the height.
pub struct Display<
    const WIDTH: u32,
    const HEIGHT: u32,
    const BWRBIT: bool,
    const BYTECOUNT: usize,
    COLOR: ColorType,
> {
    buffer: [u8; BYTECOUNT],
    rotation: DisplayRotation,
    _color: PhantomData<COLOR>,
}

impl<
    const WIDTH: u32,
    const HEIGHT: u32,
    const BWRBIT: bool,
    const BYTECOUNT: usize,
    COLOR: ColorType,
> View for Display<WIDTH, HEIGHT, BWRBIT, BYTECOUNT, COLOR> {
    type V = Seq<u8>;

    /// The bytes of the buffer.
    closed spec fn view(&self) -> Seq<u8> {
        self.buffer@
    }
}

impl<
    const WIDTH: u32,
    const HEIGHT: u32,
    const BWRBIT: bool,
    const BYTECOUNT: usize,
    COLOR: ColorType,
> Default for Display<WIDTH, HEIGHT, BWRBIT, BYTECOUNT, COLOR> {
    /// A display with every byte 0, not turned. Which colour 0 shows depends
    /// on the panel.
    fn default() -> (r: Self)
        ensures
            r@ == Seq::new(BYTECOUNT as nat, |i: int| 0u8),
            r.spec_rotation() == DisplayRotation::Rotate0,
    {
        let r = Self {
            buffer: [0u8;BYTECOUNT],
            rotation: DisplayRotation::Rotate0,
            _color: PhantomData,
        };
        r
    }
}

impl<
    const WIDTH: u32,
    const HEIGHT: u32,
    const BWRBIT: bool,
    const BYTECOUNT: usize,
    COLOR: ColorType,
> Display<WIDTH, HEIGHT, BWRBIT, BYTECOUNT, COLOR> {
    /// The rotation under which pixels are written.
    pub closed spec fn spec_rotation(&self) -> DisplayRotation {
        self.rotation
    }

    /// Whether `BYTECOUNT` is the length that the width and the height ask
    /// for.
    pub open spec fn sized() -> bool {
        BYTECOUNT == frame_bytes::<COLOR>(WIDTH as int, HEIGHT as int)
    }

    /// The buffer, as the panel takes it. It is `BYTECOUNT` bytes long at all
    /// times: the length that the width and the height ask for, where the
    /// type was given that length.
    pub fn buffer(&self) -> (r: &[u8])
        ensures
            r@ == self@,
            r@.len() == BYTECOUNT,
            Self::sized() ==> r@.len() == frame_bytes::<COLOR>(WIDTH as int, HEIGHT as int),
    {
        &self.buffer
    }

    /// Turns the display for the writes to come.
    pub fn set_rotation(&mut self, rotation: DisplayRotation)
        ensures
            final(self).spec_rotation() == rotation,
            final(self)@ == old(self)@,
    {
        self.rotation = rotation;
    }

    /// The rotation under which pixels are written.
    #[verifier::when_used_as_spec(spec_rotation)]
    pub fn rotation(&self) -> (r: DisplayRotation)
        ensures
            r == self.spec_rotation(),
    {
        self.rotation
    }

    /// The extent of the display as it is turned.
    pub fn size(&self) -> (s: Size)
        ensures
            s == turned_size(self.spec_rotation(), WIDTH, HEIGHT),
    {
        match self.rotation {
            DisplayRotation::Rotate0 | DisplayRotation::Rotate180 => Size::new(WIDTH, HEIGHT),
            DisplayRotation::Rotate90 | DisplayRotation::Rotate270 => Size::new(HEIGHT, WIDTH),
        }
    }

    /// Writes one pixel. A point outside the display is passed over.
    pub fn set_pixel(&mut self, pixel: Pixel<COLOR>)
        requires
            has_room::<COLOR>(
                BYTECOUNT as int,
                WIDTH as int,
                HEIGHT as int,
                old(self).spec_rotation(),
                pixel.0,
            ),
        ensures
            final(self)@ == with_pixel(
                old(self)@,
                WIDTH as int,
                HEIGHT as int,
                old(self).spec_rotation(),
                BWRBIT,
                pixel,
            ),
            final(self).spec_rotation() == old(self).spec_rotation(),
    {
        set_pixel(&mut self.buffer, WIDTH, HEIGHT, self.rotation, BWRBIT, pixel);
    }

    /// Whether the buffer has room for `point`: whether
    /// [`Display::set_pixel`] may be called with it. It has for every point
    /// where `BYTECOUNT` holds the rows of every plane.
    pub fn accepts(&self, point: Point) -> (ok: bool)
        ensures
            ok == has_room::<COLOR>(
                BYTECOUNT as int,
                WIDTH as int,
                HEIGHT as int,
                self.spec_rotation(),
                point,
            ),
    {
        point_has_room::<COLOR>(BYTECOUNT, WIDTH, HEIGHT, self.rotation, point)
    }

    /// The buffer, for a window that was cut from this display to be copied
    /// back into.
    pub fn buffer_mut(&mut self) -> (r: &mut [u8])
        ensures
            r@ == old(self)@,
            r@.len() == BYTECOUNT,
            final(self)@ == final(r)@,
            final(self).spec_rotation() == old(self).spec_rotation(),
    {
        &mut self.buffer
    }

    /// The buffer is `BYTECOUNT` bytes long, whatever has been written.
    pub proof fn lemma_buffer_len(&self)
        ensures
            self@.len() == BYTECOUNT,
    {
    }

    /// Whether the window of `width` by `height` pixels at `(x, y)` can be cut
    /// from this display: whether [`Display::get_partial_frame`] may be
    /// called with it.
    pub fn accepts_window(&self, x: u32, y: u32, width: u32, height: u32) -> (ok: bool)
        ensures
            ok == (window_fits::<COLOR>(
                Window { x, y, width, height },
                WIDTH as int,
                BYTECOUNT as int,
            ) && aligned_end_of(x as int, width as int) <= u32::MAX),
    {
        window_accepted::<COLOR>(x, y, width, height, WIDTH, BYTECOUNT)
    }

    /// The frame of the window of `width` by `height` pixels at `(x, y)`, in
    /// the columns and rows of the display as it lies when it is not turned.
    /// Every byte of the frame is 0.
    pub fn get_partial_frame(&self, x: u32, y: u32, width: u32, height: u32) -> (r: PartialFrame<
        COLOR,
    >)
        requires
            window_fits::<COLOR>(Window { x, y, width, height }, WIDTH as int, BYTECOUNT as int),
            aligned_end_of(x as int, width as int) <= u32::MAX,
        ensures
            r.wf(),
            r.window() == (Window { x, y, width, height }),
            r.full_width() == WIDTH,
            r.full_size() == BYTECOUNT,
            r.spec_bwrbit() == BWRBIT,
            r.spec_rotation() == DisplayRotation::Rotate0,
            r@ == Seq::new(r@.len(), |i: int| 0u8),
    {
        PartialFrame::new(x, y, width, height, WIDTH, BYTECOUNT, BWRBIT)
    }

    /// Writes the pixels of `pixels`, the first of them first.
    pub fn draw_iter(&mut self, pixels: &[Pixel<COLOR>])
        requires
            forall|i: int|
                0 <= i < pixels@.len() ==> has_room::<COLOR>(
                    BYTECOUNT as int,
                    WIDTH as int,
                    HEIGHT as int,
                    old(self).spec_rotation(),
                    (#[trigger] pixels@[i]).0,
                ),
        ensures
            final(self)@ == with_pixels(
                old(self)@,
                WIDTH as int,
                HEIGHT as int,
                old(self).spec_rotation(),
                BWRBIT,
                pixels@,
            ),
            final(self).spec_rotation() == old(self).spec_rotation(),
    {
        draw_pixels(&mut self.buffer, WIDTH, HEIGHT, self.rotation, BWRBIT, pixels);
    }
}

impl<
    const WIDTH: u32,
    const HEIGHT: u32,
    const BWRBIT: bool,
    const BYTECOUNT: usize,
> Display<WIDTH, HEIGHT, BWRBIT, BYTECOUNT, TriColor> {
    /// The plane that tells black from white: the front half of the buffer.
    pub fn bw_buffer(&self) -> (r: &[u8])
        ensures
            r@ == self@.subrange(0, BYTECOUNT as int / 2),
    {
        vstd::slice::slice_subrange(self.buffer.as_slice(), 0, self.buffer.len() / 2)
    }

    /// The plane of the chromatic pixels: the back half of the buffer.
    pub fn chromatic_buffer(&self) -> (r: &[u8])
        ensures
            r@ == self@.subrange(BYTECOUNT as int / 2, BYTECOUNT as int),
    {
        vstd::slice::slice_subrange(
            self.buffer.as_slice(),
            self.buffer.len() / 2,
            self.buffer.len(),
        )
    }
}

/// Why a display over a borrowed buffer could not be made.
#[derive(Clone, Copy, PartialEq, Eq, Debug, Structural)]
pub enum VarDisplayError {
    /// The buffer is shorter than the frame.
    BufferTooSmall,
}

/// A framebuffer whose geometry is chosen when it is made, over a buffer that
/// the caller lends. Of that buffer it takes the first [`frame_bytes`] bytes;
/// they are its frame from its making on, and their number never changes.
pub struct VarDisplay<'a, COLOR: ColorType> {
    width: u32,
    height: u32,
    bwrbit: bool,
    buffer: &'a mut [u8],
    rotation: DisplayRotation,
    _color: PhantomData<COLOR>,
}

impl<'a, COLOR: ColorType> View for VarDisplay<'a, COLOR> {
    type V = Seq<u8>;

    /// The bytes of the frame.
    closed spec fn view(&self) -> Seq<u8> {
        self.buffer@
    }
}

impl<'a, COLOR: ColorType> VarDisplay<'a, COLOR> {
    /// Pixels in one row of the display when it is not turned.
    pub closed spec fn spec_width(&self) -> u32 {
        self.width
    }

    /// Rows of the display when it is not turned.
    pub closed spec fn spec_height(&self) -> u32 {
        self.height
    }

    /// The polarity of the panel.
    pub closed spec fn spec_bwrbit(&self) -> bool {
        self.bwrbit
    }

    /// The rotation under which pixels are written.
    pub closed spec fn spec_rotation(&self) -> DisplayRotation {
        self.rotation
    }

    /// A display of `width` by `height` pixels over `buffer`, not turned, that
    /// shows what the buffer holds. `bwrbit` is the polarity of a tri-colour
    /// panel; pass `false` for a monochrome one.
    ///
    /// It fails exactly if the buffer is shorter than the frame.
    pub fn new(width: u32, height: u32, buffer: &'a mut [u8], bwrbit: bool) -> (r: Result<
        Self,
        VarDisplayError,
    >)
        ensures
            r is Ok <==> frame_bytes::<COLOR>(width as int, height as int) <= old(buffer)@.len(),
            r is Err ==> r == Err::<Self, VarDisplayError>(VarDisplayError::BufferTooSmall)
                && final(buffer)@ == old(buffer)@,
            r matches Ok(d) ==> d.wf() && d@ == old(buffer)@.take(
                frame_bytes::<COLOR>(width as int, height as int),
            ) && d.spec_width() == width && d.spec_height() == height && d.spec_bwrbit() == bwrbit
                && d.spec_rotation() == DisplayRotation::Rotate0,
    {
        let size: u64 = frame_size::<COLOR>(width, height);
        if size > buffer.len() as u64 {
            return Err(VarDisplayError::BufferTooSmall);
        }
        let (frame, rest) = buffer.split_at_mut(size as usize);
        Ok(
            Self {
                width,
                height,
                bwrbit,
                buffer: frame,
                rotation: DisplayRotation::Rotate0,
                _color: PhantomData,
            },
        )
    }

    /// Well-formedness: the frame has the length that the width and the
    /// height ask for. [`VarDisplay::new`] makes it so, and nothing changes
    /// the length or the geometry afterwards.
    pub open spec fn wf(&self) -> bool {
        self@.len() == frame_bytes::<COLOR>(self.spec_width() as int, self.spec_height() as int)
    }

    /// The bytes of the frame, as the panel takes them: as many as the width
    /// and the height ask for.
    pub fn buffer(&self) -> (r: &[u8])
        ensures
            r@ == self@,
            self.wf() ==> r@.len() == frame_bytes::<COLOR>(
                self.spec_width() as int,
                self.spec_height() as int,
            ),
    {
        self.buffer
    }

    /// Turns the display for the writes to come.
    pub fn set_rotation(&mut self, rotation: DisplayRotation)
        ensures
            final(self).spec_rotation() == rotation,
            final(self)@ == old(self)@,
            final(self).spec_width() == old(self).spec_width(),
            final(self).spec_height() == old(self).spec_height(),
            final(self).spec_bwrbit() == old(self).spec_bwrbit(),
    {
        self.rotation = rotation;
    }

    /// The rotation under which pixels are written.
    #[verifier::when_used_as_spec(spec_rotation)]
    pub fn rotation(&self) -> (r: DisplayRotation)
        ensures
            r == self.spec_rotation(),
    {
        self.rotation
    }

    /// The extent of the display as it is turned.
    pub fn size(&self) -> (s: Size)
        ensures
            s == turned_size(self.spec_rotation(), self.spec_width(), self.spec_height()),
    {
        match self.rotation {
            DisplayRotation::Rotate0 | DisplayRotation::Rotate180 => Size::new(
                self.width,
                self.height,
            ),
            DisplayRotation::Rotate90 | DisplayRotation::Rotate270 => Size::new(
                self.height,
                self.width,
            ),
        }
    }

    /// Writes one pixel. A point outside the display is passed over.
    pub fn set_pixel(&mut self, pixel: Pixel<COLOR>)
        requires
            has_room::<COLOR>(
                old(self)@.len() as int,
                old(self).spec_width() as int,
                old(self).spec_height() as int,
                old(self).spec_rotation(),
                pixel.0,
            ),
        ensures
            final(self)@ == with_pixel(
                old(self)@,
                old(self).spec_width() as int,
                old(self).spec_height() as int,
                old(self).spec_rotation(),
                old(self).spec_bwrbit(),
                pixel,
            ),
            final(self)@.len() == old(self)@.len(),
            final(self).spec_rotation() == old(self).spec_rotation(),
            final(self).spec_width() == old(self).spec_width(),
            final(self).spec_height() == old(self).spec_height(),
            final(self).spec_bwrbit() == old(self).spec_bwrbit(),
    {
        proof {
            lemma_with_pixel_len(
                self@,
                self.width as int,
                self.height as int,
                self.rotation,
                self.bwrbit,
                pixel,
            );
        }
        set_pixel(self.buffer, self.width, self.height, self.rotation, self.bwrbit, pixel);
    }

    /// Writes the pixels of `pixels`, the first of them first.
    pub fn draw_iter(&mut self, pixels: &[Pixel<COLOR>])
        requires
            forall|i: int|
                0 <= i < pixels@.len() ==> has_room::<COLOR>(
                    old(self)@.len() as int,
                    old(self).spec_width() as int,
                    old(self).spec_height() as int,
                    old(self).spec_rotation(),
                    (#[trigger] pixels@[i]).0,
                ),
        ensures
            final(self)@ == with_pixels(
                old(self)@,
                old(self).spec_width() as int,
                old(self).spec_height() as int,
                old(self).spec_rotation(),
                old(self).spec_bwrbit(),
                pixels@,
            ),
            final(self)@.len() == old(self)@.len(),
            final(self).spec_rotation() == old(self).spec_rotation(),
            final(self).spec_width() == old(self).spec_width(),
            final(self).spec_height() == old(self).spec_height(),
            final(self).spec_bwrbit() == old(self).spec_bwrbit(),
    {
        draw_pixels(self.buffer, self.width, self.height, self.rotation, self.bwrbit, pixels);
    }

    /// Whether the frame has room for `point`: whether
    /// [`VarDisplay::set_pixel`] may be called with it.
    pub fn accepts(&self, point: Point) -> (ok: bool)
        ensures
            ok == has_room::<COLOR>(
                self@.len() as int,
                self.spec_width() as int,
                self.spec_height() as int,
                self.spec_rotation(),
                point,
            ),
    {
        point_has_room::<COLOR>(self.buffer.len(), self.width, self.height, self.rotation, point)
    }

    /// The buffer, for a window that was cut from this display to be copied
    /// back into.
    pub fn buffer_mut(&mut self) -> (r: &mut [u8])
        ensures
            r@ == old(self)@,
            final(self)@ == final(r)@,
            final(self).spec_rotation() == old(self).spec_rotation(),
            final(self).spec_width() == old(self).spec_width(),
            final(self).spec_height() == old(self).spec_height(),
            final(self).spec_bwrbit() == old(self).spec_bwrbit(),
    {
        &mut *self.buffer
    }

    /// Whether the window of `width` by `height` pixels at `(x, y)` can be cut
    /// from this display: whether [`VarDisplay::get_partial_frame`] may be
    /// called with it.
    pub fn accepts_window(&self, x: u32, y: u32, width: u32, height: u32) -> (ok: bool)
        ensures
            ok == (window_fits::<COLOR>(
                Window { x, y, width, height },
                self.spec_width() as int,
                self@.len() as int,
            ) && aligned_end_of(x as int, width as int) <= u32::MAX),
    {
        window_accepted::<COLOR>(x, y, width, height, self.width, self.buffer.len())
    }

    /// The frame of the window of `width` by `height` pixels at `(x, y)`, in
    /// the columns and rows of the display as it lies when it is not turned.
    /// Every byte of the frame is 0.
    pub fn get_partial_frame(&self, x: u32, y: u32, width: u32, height: u32) -> (r: PartialFrame<
        COLOR,
    >)
        requires
            window_fits::<COLOR>(
                Window { x, y, width, height },
                self.spec_width() as int,
                self@.len() as int,
            ),
            aligned_end_of(x as int, width as int) <= u32::MAX,
        ensures
            r.wf(),
            r.window() == (Window { x, y, width, height }),
            r.full_width() == self.spec_width(),
            r.full_size() == self@.len(),
            r.spec_bwrbit() == self.spec_bwrbit(),
            r.spec_rotation() == DisplayRotation::Rotate0,
            r@ == Seq::new(r@.len(), |i: int| 0u8),
    {
        PartialFrame::new(x, y, width, height, self.width, self.buffer.len(), self.bwrbit)
    }
}

impl<'a> VarDisplay<'a, TriColor> {
    /// The plane that tells black from white: the front half of the frame.
    pub fn bw_buffer(&self) -> (r: &[u8])
        ensures
            r@ == self@.subrange(0, self@.len() as int / 2),
    {
        vstd::slice::slice_subrange(self.buffer, 0, self.buffer.len() / 2)
    }

    /// The plane of the chromatic pixels: the back half of the frame.
    pub fn chromatic_buffer(&self) -> (r: &[u8])
        ensures
            r@ == self@.subrange(self@.len() as int / 2, self@.len() as int),
    {
        vstd::slice::slice_subrange(self.buffer, self.buffer.len() / 2, self.buffer.len())
    }
}

/// The column at which the byte of column `x` starts.
pub fn aligned_x(x: u32) -> (r: u32)
    ensures
        r == aligned_x_of(x as int),
{
    assert(x & !0b111u32 == x - x % 8) by (bit_vector);
    x & !0b111
}

/// The columns of the window of `width` columns from `x` on, once it is
/// widened to byte boundaries on both sides.
pub fn aligned_width(x: u32, width: u32) -> (r: u32)
    requires
        width > 0 || x % 8 != 0,
        aligned_end_of(x as int, width as int) <= u32::MAX,
    ensures
        r == aligned_width_of(x as int, width as int),
{
    let aligned_x: u32 = aligned_x(x);
    let x_end: u32 = x + width - 1;
    assert(x_end | 0b111u32 == x_end - x_end % 8 + 7) by (bit_vector);
    let aligned_x_end: u32 = x_end | 0b111;
    aligned_x_end - aligned_x + 1
}

/// Whether the window of `width` by `height` pixels at `(x, y)` can be cut
/// from a display of `full_display_width` columns with a buffer of
/// `full_display_size` bytes: whether [`PartialFrame::new`] may be called with
/// it.
pub fn window_accepted<C: ColorType>(
    x: u32,
    y: u32,
    width: u32,
    height: u32,
    full_display_width: u32,
    full_display_size: usize,
) -> (ok: bool)
    ensures
        ok == (window_fits::<C>(
            Window { x, y, width, height },
            full_display_width as int,
            full_display_size as int,
        ) && aligned_end_of(x as int, width as int) <= u32::MAX),
{
    proof {
        C::lemma_layout();
    }
    if width == 0 && x % 8 == 0 {
        return false;
    }
    let last: u64 = x as u64 + width as u64 - 1;
    let end: u64 = last - last % 8 + 8;
    let stride: u64 = line_bytes(full_display_width, 1);
    let rows: u64 = y as u64 + height as u64;
    assert(rows * stride <= 0x2_0000_0000 * 0x2000_0000) by (nonlinear_arith)
        requires
            rows <= 0x2_0000_0000,
            stride <= 0x2000_0000,
    ;
    let plane: u64 = if C::BUFFER_COUNT == 2 {
        (full_display_size / 2) as u64
    } else {
        full_display_size as u64
    };
    end <= 0xFFFF_FFFF && end <= 8 * stride && rows * stride <= plane
}

/// The place of a widened window and what it holds, as the partial update of
/// the panel takes them.
pub struct PartialUpdateParameters<'a> {
    /// The leftmost column, on a byte boundary.
    pub x: u32,
    /// The topmost row.
    pub y: u32,
    /// Columns, a whole number of bytes.
    pub width: u32,
    /// Rows.
    pub height: u32,
    /// The pixels of the widened window.
    pub buffer: &'a [u8],
}

/// A window of a display with a buffer of its own, widened to byte boundaries.
///
/// Pixels are written in the coordinates of the window as it was asked for.
/// [`PartialFrame::get_update_parameters`] fills the padding from the display
/// and copies the window back into it.
pub struct PartialFrame<COLOR: ColorType> {
    window: Window,
    bwrbit: bool,
    buffer: Vec<u8>,
    full_display_width: u32,
    full_display_size: usize,
    rotation: DisplayRotation,
    _color: PhantomData<COLOR>,
}

impl<COLOR: ColorType> View for PartialFrame<COLOR> {
    type V = Seq<u8>;

    /// The bytes of the widened window.
    closed spec fn view(&self) -> Seq<u8> {
        self.buffer@
    }
}

impl<COLOR: ColorType> PartialFrame<COLOR> {
    /// The window as it was asked for.
    pub closed spec fn window(&self) -> Window {
        self.window
    }

    /// The columns of the display that the window was cut from.
    pub closed spec fn full_width(&self) -> u32 {
        self.full_display_width
    }

    /// The length of the buffer of the display that the window was cut from.
    pub closed spec fn full_size(&self) -> usize {
        self.full_display_size
    }

    /// The polarity of the panel.
    pub closed spec fn spec_bwrbit(&self) -> bool {
        self.bwrbit
    }

    /// The rotation under which pixels are written.
    pub closed spec fn spec_rotation(&self) -> DisplayRotation {
        self.rotation
    }

    /// The columns of the widened window.
    pub open spec fn aligned_width(&self) -> int {
        aligned_width_of(self.window().x as int, self.window().width as int)
    }

    /// Well-formedness: the window fits the display that it was cut from, and
    /// the buffer holds the widened window, no more and no less.
    pub open spec fn wf(&self) -> bool {
        &&& window_fits::<COLOR>(self.window(), self.full_width() as int, self.full_size() as int)
        &&& aligned_end_of(self.window().x as int, self.window().width as int) <= u32::MAX
        &&& self@.len() == frame_bytes::<COLOR>(self.aligned_width(), self.window().height as int)
    }

    /// Whether `other` is a frame of the same window of the same display, under
    /// the same rotation.
    pub open spec fn same_frame(&self, other: &Self) -> bool {
        &&& self.window() == other.window()
        &&& self.full_width() == other.full_width()
        &&& self.full_size() == other.full_size()
        &&& self.spec_bwrbit() == other.spec_bwrbit()
        &&& self.spec_rotation() == other.spec_rotation()
    }

    /// The frame of the window of `width` by `height` pixels at `(x, y)` of a
    /// display of `full_display_width` columns with a buffer of
    /// `full_display_size` bytes. Every byte of it is 0, and it is not turned.
    pub fn new(
        x: u32,
        y: u32,
        width: u32,
        height: u32,
        full_display_width: u32,
        full_display_size: usize,
        bwrbit: bool,
    ) -> (r: Self)
        requires
            window_fits::<COLOR>(
                Window { x, y, width, height },
                full_display_width as int,
                full_display_size as int,
            ),
            aligned_end_of(x as int, width as int) <= u32::MAX,
        ensures
            r.wf(),
            r.window() == (Window { x, y, width, height }),
            r.full_width() == full_display_width,
            r.full_size() == full_display_size,
            r.spec_bwrbit() == bwrbit,
            r.spec_rotation() == DisplayRotation::Rotate0,
            r@ == Seq::new(r@.len(), |i: int| 0u8),
    {
        let aligned_width: u32 = aligned_width(x, width);
        let size: u64 = frame_size::<COLOR>(aligned_width, height);
        proof {
            lemma_frame_fits_parent::<COLOR>(
                Window { x, y, width, height },
                full_display_width as int,
                full_display_size as int,
            );
        }
        let buffer_size: usize = size as usize;
        let buffer: Vec<u8> = vec![0u8; buffer_size];
        Self {
            window: Window { x, y, width, height },
            bwrbit,
            buffer,
            full_display_width,
            full_display_size,
            rotation: DisplayRotation::Rotate0,
            _color: PhantomData,
        }
    }

    /// Turns the window for the writes to come.
    pub fn set_rotation(&mut self, rotation: DisplayRotation)
        ensures
            final(self).spec_rotation() == rotation,
            final(self)@ == old(self)@,
            final(self).window() == old(self).window(),
            final(self).full_width() == old(self).full_width(),
            final(self).full_size() == old(self).full_size(),
            final(self).spec_bwrbit() == old(self).spec_bwrbit(),
    {
        self.rotation = rotation;
    }

    /// The rotation under which pixels are written.
    #[verifier::when_used_as_spec(spec_rotation)]
    pub fn rotation(&self) -> (r: DisplayRotation)
        ensures
            r == self.spec_rotation(),
    {
        self.rotation
    }

    /// The extent of the window as it is turned.
    pub fn size(&self) -> (s: Size)
        ensures
            s == turned_size(self.spec_rotation(), self.window().width, self.window().height),
    {
        match self.rotation {
            DisplayRotation::Rotate0 | DisplayRotation::Rotate180 => Size::new(
                self.window.width,
                self.window.height,
            ),
            DisplayRotation::Rotate90 | DisplayRotation::Rotate270 => Size::new(
                self.window.height,
                self.window.width,
            ),
        }
    }

    /// Writes one pixel, given in the coordinates of the window as it was
    /// asked for. A point outside the widened window is passed over.
    pub fn set_pixel(&mut self, pixel: Pixel<COLOR>)
        requires
            old(self).wf(),
        ensures
            final(self).wf(),
            final(self).same_frame(old(self)),
            ({
                let (x, y) = shifted(
                    old(self).spec_rotation(),
                    left_padding(old(self).window()),
                    pixel.0.x as int,
                    pixel.0.y as int,
                );
                final(self)@ == with_color_at(
                    old(self)@,
                    old(self).aligned_width(),
                    old(self).window().height as int,
                    old(self).spec_rotation(),
                    old(self).spec_bwrbit(),
                    x,
                    y,
                    pixel.1,
                )
            }),
    {
        let Pixel(point, color) = pixel;
        let aligned_width: u32 = aligned_width(self.window.x, self.window.width);
        let diff: i64 = (self.window.x - aligned_x(self.window.x)) as i64;
        let (x, y): (i64, i64) = match self.rotation {
            DisplayRotation::Rotate0 => (point.x as i64 + diff, point.y as i64),
            DisplayRotation::Rotate90 => (point.x as i64, point.y as i64 + diff),
            DisplayRotation::Rotate180 => (point.x as i64 - diff, point.y as i64),
            DisplayRotation::Rotate270 => (point.x as i64, point.y as i64 - diff),
        };
        proof {
            lemma_frame_bytes_by_planes::<COLOR>(aligned_width as int, self.window.height as int);
            lemma_planes_fit_has_room::<COLOR>(
                self.buffer@.len() as int,
                aligned_width as int,
                self.window.height as int,
                self.rotation,
                x as int,
                y as int,
            );
            lemma_with_color_at_len(
                self.buffer@,
                aligned_width as int,
                self.window.height as int,
                self.rotation,
                self.bwrbit,
                x as int,
                y as int,
                color,
            );
        }
        set_color_at(
            self.buffer.as_mut_slice(),
            aligned_width,
            self.window.height,
            self.rotation,
            self.bwrbit,
            x,
            y,
            color,
        );
    }

    /// Reconciles one plane of the window with the display, row by row: fills
    /// the padding of the row from the display, and copies the row back into
    /// the display.
    ///
    /// `full_display_start` and `partial_buffer_start` are where the plane
    /// starts in the buffer of the display and in that of the window. `frame`
    /// and `parent` are the two buffers as they were before any plane was
    /// reconciled.
    fn copy_and_sync_buffer(
        &mut self,
        full_display_buffer: &mut [u8],
        full_display_start: usize,
        partial_buffer_start: usize,
        Ghost(plane): Ghost<int>,
        Ghost(frame): Ghost<Seq<u8>>,
        Ghost(parent): Ghost<Seq<u8>>,
    )
        requires
            old(self).wf(),
            0 <= plane < COLOR::planes(),
            frame.len() == old(self)@.len(),
            parent.len() == old(full_display_buffer)@.len(),
            parent.len() >= old(self).full_size(),
            full_display_start == plane * plane_len::<COLOR>(old(self).full_size() as int),
            partial_buffer_start == plane * (old(self).window().height * row_bytes(
                old(self).window(),
            )),
            old(self)@ == frame_after::<COLOR>(
                frame,
                parent,
                old(self).window(),
                old(self).full_width() as int,
                old(self).full_size() as int,
                partial_buffer_start as int,
            ),
            old(full_display_buffer)@ == parent_after::<COLOR>(
                frame,
                parent,
                old(self).window(),
                old(self).full_width() as int,
                old(self).full_size() as int,
                partial_buffer_start as int,
            ),
        ensures
            final(self).same_frame(old(self)),
            final(self)@ == frame_after::<COLOR>(
                frame,
                parent,
                old(self).window(),
                old(self).full_width() as int,
                old(self).full_size() as int,
                partial_buffer_start + old(self).window().height * row_bytes(old(self).window()),
            ),
            final(full_display_buffer)@ == parent_after::<COLOR>(
                frame,
                parent,
                old(self).window(),
                old(self).full_width() as int,
                old(self).full_size() as int,
                partial_buffer_start + old(self).window().height * row_bytes(old(self).window()),
            ),
    {
        let ghost w = self.window;
        let ghost fw = self.full_display_width as int;
        let ghost fs = self.full_display_size as int;
        let ghost rb = row_bytes(w);
        let ghost stride = line_bytes_of(fw, 1);
        proof {
            COLOR::lemma_layout();
            lemma_row_bytes(w);
            lemma_frame_fits_parent::<COLOR>(w, fw, fs);
        }
        let aligned_x: u32 = aligned_x(self.window.x);
        let aligned_width: u32 = aligned_width(self.window.x, self.window.width);
        let partial_row_bytes: usize = (aligned_width as usize + 7) / 8;
        let full_display_row_bytes: usize = line_bytes(self.full_display_width, 1) as usize;
        let partial_x_byte_offset: usize = aligned_x as usize / 8;
        let left_padding_bits: u32 = self.window.x - aligned_x;
        let right_padding_bits: u32 = aligned_width - left_padding_bits - self.window.width;
        let rows: usize = self.window.height as usize;
        let frame_len: usize = self.buffer.len();
        let parent_len: usize = full_display_buffer.len();
        assert(plane * (w.height * rb) + w.height * rb <= frame.len()) by (nonlinear_arith)
            requires
                0 <= plane < COLOR::planes(),
                frame.len() == COLOR::planes() * (w.height * rb),
                0 <= w.height * rb,
        ;
        let mut row_idx: usize = 0;
        while row_idx < rows
            invariant
                self.wf(),
                self.same_frame(old(self)),
                w == self.window(),
                fw == self.full_width(),
                fs == self.full_size(),
                rb == row_bytes(w),
                stride == line_bytes_of(fw, 1),
                rb >= 1,
                rb <= stride,
                0 <= plane < COLOR::planes(),
                frame.len() == self@.len(),
                parent.len() == full_display_buffer@.len(),
                parent.len() >= fs,
                frame_len == frame.len(),
                parent_len == parent.len(),
                full_display_start == plane * plane_len::<COLOR>(fs),
                partial_buffer_start == plane * (w.height * rb),
                partial_buffer_start + w.height * rb <= frame.len(),
                full_display_start + plane_len::<COLOR>(fs) <= fs,
                (w.y + w.height) * stride <= plane_len::<COLOR>(fs),
                partial_row_bytes == rb,
                full_display_row_bytes == stride,
                partial_x_byte_offset == aligned_x_of(w.x as int) / 8,
                partial_x_byte_offset + rb <= stride,
                left_padding_bits == left_padding(w),
                right_padding_bits == right_padding(w),
                left_padding_bits < 8,
                right_padding_bits < 8,
                rows == w.height,
                row_idx <= rows,
                self@ == frame_after::<COLOR>(
                    frame,
                    parent,
                    w,
                    fw,
                    fs,
                    partial_buffer_start + row_idx * rb,
                ),
                full_display_buffer@ == parent_after::<COLOR>(
                    frame,
                    parent,
                    w,
                    fw,
                    fs,
                    partial_buffer_start + row_idx * rb,
                ),
            decreases rows - row_idx,
        {
            let ghost done = partial_buffer_start + row_idx * rb;
            let ghost frame_before = self@;
            let ghost parent_before = full_display_buffer@;
            assert(row_idx * rb + rb <= w.height * rb) by (nonlinear_arith)
                requires
                    0 <= row_idx < w.height,
                    0 <= rb,
            ;
            assert((w.y + row_idx) * stride + stride <= (w.y + w.height) * stride
                && 0 <= (w.y + row_idx) * stride) by (nonlinear_arith)
                requires
                    0 <= row_idx < w.height,
                    0 <= w.y,
                    0 <= stride,
            ;
            assert(w.y + row_idx < usize::MAX) by (nonlinear_arith)
                requires
                    (w.y + row_idx) * stride + stride <= usize::MAX,
                    1 <= stride,
                    0 <= w.y + row_idx,
            ;
            let partial_row_start: usize = partial_buffer_start + row_idx * partial_row_bytes;
            let full_display_row_start: usize = full_display_start + (self.window.y as usize
                + row_idx) * full_display_row_bytes;
            let full_display_byte_start: usize = full_display_row_start + partial_x_byte_offset;
            proof {
                assert forall|c: int| 0 <= c < rb implies {
                    &&& frame_place(w, done + c) == (plane, row_idx as int, c)
                    &&& parent_index::<COLOR>(w, fw, fs, plane, row_idx as int, c)
                        == full_display_byte_start + c
                    &&& frame_byte_over::<COLOR>(w, fw, fs, full_display_byte_start + c) == Some(
                        done + c,
                    )
                    &&& #[trigger] frame_before[done + c] == frame[done + c]
                    &&& parent_before[full_display_byte_start + c] == parent[full_display_byte_start
                        + c]
                } by {
                    lemma_frame_place(w, plane, row_idx as int, c);
                    lemma_parent_index::<COLOR>(w, fw, fs, plane, row_idx as int, c);
                }
            }

            // The left padding of the first byte comes from the display.
            let mut first: u8 = self.buffer[partial_row_start];
            copy_left_padding_bits(
                &mut first,
                full_display_buffer[full_display_byte_start],
                left_padding_bits,
            );
            self.buffer[partial_row_start] = first;

            // The right padding of the last byte comes from the display.
            let partial_last_byte_idx: usize = partial_row_start + partial_row_bytes - 1;
            let full_display_last_byte_idx: usize = full_display_byte_start + partial_row_bytes - 1;
            let mut last: u8 = self.buffer[partial_last_byte_idx];
            copy_right_padding_bits(
                &mut last,
                full_display_buffer[full_display_last_byte_idx],
                right_padding_bits,
            );
            self.buffer[partial_last_byte_idx] = last;

            let ghost frame_row = self@;
            proof {
                assert(frame_row =~= frame_after::<COLOR>(frame, parent, w, fw, fs, done + rb)) by {
                    assert forall|k: int| 0 <= k < frame.len() implies frame_row[k]
                        == frame_after::<COLOR>(frame, parent, w, fw, fs, done + rb)[k] by {
                        if done <= k < done + rb {
                            let c = k - done;
                            assert(frame_before[done + c] == frame[done + c]);
                            lemma_blend_twice(
                                frame[k],
                                parent[full_display_byte_start + c],
                                left_mask(left_padding(w) as u8),
                                right_mask(right_padding(w) as u8),
                            );
                            lemma_blend_twice(frame[k], parent[full_display_byte_start + c], 0u8, 0u8);
                        }
                    }
                }
            }

            // The row goes back into the display.
            let mut col: usize = 0;
            while col < partial_row_bytes
                invariant
                    col <= partial_row_bytes,
                    partial_row_bytes == rb,
                    self@ == frame_row,
                    frame_row.len() == frame.len(),
                    partial_row_start == done,
                    done + rb <= frame.len(),
                    parent.len() == full_display_buffer@.len(),
                    full_display_byte_start + rb <= parent.len(),
                    frame_len == frame.len(),
                    parent_len == parent.len(),
                    full_display_buffer@ == Seq::new(
                        parent.len(),
                        |j: int|
                            if full_display_byte_start <= j < full_display_byte_start + col {
                                frame_row[done + (j - full_display_byte_start)]
                            } else {
                                parent_before[j]
                            },
                    ),
                decreases partial_row_bytes - col,
            {
                full_display_buffer[full_display_byte_start + col] = self.buffer[partial_row_start
                    + col];
                col = col + 1;
            }
            proof {
                let target = parent_after::<COLOR>(frame, parent, w, fw, fs, done + rb);
                assert forall|j: int| 0 <= j < parent.len() implies full_display_buffer@[j]
                    == target[j] by {
                    let in_row = full_display_byte_start <= j < full_display_byte_start + rb;
                    if !in_row && frame_byte_over::<COLOR>(w, fw, fs, j) is Some {
                        lemma_frame_byte_over::<COLOR>(w, fw, fs, j);
                        let k = frame_byte_over::<COLOR>(w, fw, fs, j)->0;
                        if done <= k < done + rb {
                            let c = k - done;
                            assert(frame_before[done + c] == frame[done + c]);
                        }
                    }
                }
                assert(done + rb == partial_buffer_start + (row_idx + 1) * rb) by (nonlinear_arith)
                    requires
                        done == partial_buffer_start + row_idx * rb,
                ;
            }
            row_idx = row_idx + 1;
        }
    }

    /// The place and the pixels of the widened window, ready for the partial
    /// update of the panel.
    ///
    /// `full_display_buffer` is the buffer of the display that the window was
    /// cut from. The padding of the window is filled with what the display
    /// shows there, and the window is copied back into the display, so that
    /// afterwards both show the same.
    pub fn get_update_parameters<'s>(&'s mut self, full_display_buffer: &mut [u8]) -> (params:
        PartialUpdateParameters<'s>)
        requires
            old(self).wf(),
            old(full_display_buffer)@.len() >= old(self).full_size(),
        ensures
            final(self).wf(),
            final(self).same_frame(old(self)),
            final(self)@ == reconciled_frame::<COLOR>(
                old(self)@,
                old(full_display_buffer)@,
                old(self).window(),
                old(self).full_width() as int,
                old(self).full_size() as int,
            ),
            final(full_display_buffer)@ == reconciled_parent::<COLOR>(
                old(self)@,
                old(full_display_buffer)@,
                old(self).window(),
                old(self).full_width() as int,
                old(self).full_size() as int,
            ),
            params.x == aligned_x_of(old(self).window().x as int),
            params.y == old(self).window().y,
            params.width == old(self).aligned_width(),
            params.height == old(self).window().height,
            params.buffer@ == final(self)@,
    {
        let ghost frame = self@;
        let ghost parent = full_display_buffer@;
        let ghost w = self.window;
        let ghost fw = self.full_display_width as int;
        let ghost fs = self.full_display_size as int;
        proof {
            COLOR::lemma_layout();
            lemma_frame_fits_parent::<COLOR>(w, fw, fs);
            assert(frame =~= frame_after::<COLOR>(frame, parent, w, fw, fs, 0));
            assert(parent =~= parent_after::<COLOR>(frame, parent, w, fw, fs, 0));
        }
        let ghost plane = w.height * row_bytes(w);
        if COLOR::BUFFER_COUNT == 2 {
            let half_size: usize = self.buffer.len() / 2;
            let full_display_half_size: usize = self.full_display_size / 2;
            assert(half_size == 1 * plane && half_size + plane == frame.len() && 0 == 0 * plane
                && 0 + plane == half_size) by (nonlinear_arith)
                requires
                    half_size == frame.len() / 2,
                    frame.len() == 2 * plane,
            ;
            self.copy_and_sync_buffer(
                full_display_buffer,
                0,
                0,
                Ghost(0),
                Ghost(frame),
                Ghost(parent),
            );
            self.copy_and_sync_buffer(
                full_display_buffer,
                full_display_half_size,
                half_size,
                Ghost(1),
                Ghost(frame),
                Ghost(parent),
            );
        } else {
            assert(0 == 0 * plane && 0 + plane == frame.len() && 0 == 0 * plane_len::<COLOR>(fs))
                by (nonlinear_arith)
                requires
                    frame.len() == 1 * plane,
            ;
            self.copy_and_sync_buffer(
                full_display_buffer,
                0,
                0,
                Ghost(0),
                Ghost(frame),
                Ghost(parent),
            );
        }
        PartialUpdateParameters {
            x: aligned_x(self.window.x),
            y: self.window.y,
            width: aligned_width(self.window.x, self.window.width),
            height: self.window.height,
            buffer: self.buffer.as_slice(),
        }
    }

    /// Writes the pixels of `pixels`, the first of them first.
    pub fn draw_iter(&mut self, pixels: &[Pixel<COLOR>])
        requires
            old(self).wf(),
        ensures
            final(self).wf(),
            final(self).same_frame(old(self)),
            final(self)@ == with_window_pixels(
                old(self)@,
                old(self).aligned_width(),
                old(self).window().height as int,
                old(self).spec_rotation(),
                old(self).spec_bwrbit(),
                left_padding(old(self).window()),
                pixels@,
            ),
    {
        let count: usize = pixels.len();
        let mut done: usize = 0;
        while done < count
            invariant
                count == pixels@.len(),
                done <= count,
                self.wf(),
                self.same_frame(old(self)),
                self@ == with_window_pixels(
                    old(self)@,
                    old(self).aligned_width(),
                    old(self).window().height as int,
                    old(self).spec_rotation(),
                    old(self).spec_bwrbit(),
                    left_padding(old(self).window()),
                    pixels@.take(done as int),
                ),
            decreases count - done,
        {
            let next: &Pixel<COLOR> = &pixels[done];
            proof {
                let before = pixels@.take(done as int);
                let after = pixels@.take(done as int + 1);
                assert(after.drop_last() == before);
            }
            self.set_pixel(Pixel(next.0, next.1));
            done = done + 1;
        }
        proof {
            assert(pixels@.take(count as int) == pixels@);
        }
    }
}

impl PartialFrame<TriColor> {
    /// The plane that tells black from white: the front half of the buffer.
    pub fn bw_buffer(&self) -> (r: &[u8])
        ensures
            r@ == self@.subrange(0, self@.len() as int / 2),
    {
        vstd::slice::slice_subrange(self.buffer.as_slice(), 0, self.buffer.len() / 2)
    }

    /// The plane of the chromatic pixels: the back half of the buffer.
    pub fn chromatic_buffer(&self) -> (r: &[u8])
        ensures
            r@ == self@.subrange(self@.len() as int / 2, self@.len() as int),
    {
        vstd::slice::slice_subrange(
            self.buffer.as_slice(),
            self.buffer.len() / 2,
            self.buffer.len(),
        )
    }
}

} // verus!
