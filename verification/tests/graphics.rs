use embedded_graphics::draw_target::DrawTarget;
use embedded_graphics::geometry::OriginDimensions;
use embedded_graphics::pixelcolor::PixelColor;
use embedded_graphics::primitives::{Line, Primitive, PrimitiveStyle};
use embedded_graphics::Drawable;
use epd_waveshare::color::{Color, TriColor};
use epd_waveshare::geometry::{Pixel, Point, Size};
use epd_waveshare::graphics::{Display, DisplayRotation, VarDisplay, VarDisplayError};

/// A colour of the library as a colour to draw shapes with.
#[derive(Clone, Copy, PartialEq)]
struct Ink(Color);

impl PixelColor for Ink {
    type Raw = ();
}

type Mono200 = Display<200, 200, false, { 200 * 200 / 8 }, Color>;

/// A display of the library as a target to draw shapes on.
struct Canvas<'a>(&'a mut Mono200);

impl DrawTarget for Canvas<'_> {
    type Color = Ink;
    type Error = core::convert::Infallible;

    fn draw_iter<I>(&mut self, pixels: I) -> Result<(), Self::Error>
    where
        I: IntoIterator<Item = embedded_graphics::Pixel<Self::Color>>,
    {
        for embedded_graphics::Pixel(point, ink) in pixels {
            self.0.set_pixel(Pixel(Point::new(point.x, point.y), ink.0));
        }
        Ok(())
    }
}

impl OriginDimensions for Canvas<'_> {
    fn size(&self) -> embedded_graphics::geometry::Size {
        let size = self.0.size();
        embedded_graphics::geometry::Size::new(size.width, size.height)
    }
}

fn line(display: &mut Mono200, from: (i32, i32), to: (i32, i32), color: Color) {
    let _ = Line::new(
        embedded_graphics::geometry::Point::new(from.0, from.1),
        embedded_graphics::geometry::Point::new(to.0, to.1),
    )
    .into_styled(PrimitiveStyle::with_stroke(Ink(color), 1))
    .draw(&mut Canvas(display));
}

/// The colour that a one-plane buffer of `width` columns shows at a place.
fn mono_at(buffer: &[u8], width: u32, col: u32, row: u32) -> Color {
    let stride = (width as usize + 7) / 8;
    let byte = buffer[row as usize * stride + col as usize / 8];
    if byte & (0x80 >> (col % 8)) != 0 {
        Color::White
    } else {
        Color::Black
    }
}

/// The colour that a two-plane buffer of `width` columns shows at a place.
fn tri_at(buffer: &[u8], width: u32, col: u32, row: u32) -> TriColor {
    let stride = (width as usize + 7) / 8;
    let index = row as usize * stride + col as usize / 8;
    let bit = 0x80u8 >> (col % 8);
    if buffer[index + buffer.len() / 2] & bit != 0 {
        TriColor::Chromatic
    } else if buffer[index] & bit != 0 {
        TriColor::White
    } else {
        TriColor::Black
    }
}

// test buffer length
#[test]
fn graphics_size() {
    let display = Display::<200, 200, false, { 200 * 200 / 8 }, Color>::default();
    assert_eq!(display.buffer().len(), 5000);
}

// test default background color on all bytes
#[test]
fn graphics_default() {
    let display = Display::<200, 200, false, { 200 * 200 / 8 }, Color>::default();
    for &byte in display.buffer() {
        assert_eq!(byte, 0);
    }
}

#[test]
fn graphics_rotation_0() {
    let mut display = Display::<200, 200, false, { 200 * 200 / 8 }, Color>::default();
    line(&mut display, (0, 0), (7, 0), Color::Black);

    let buffer = display.buffer();

    assert_eq!(buffer[0], Color::Black.get_byte_value());

    for &byte in buffer.iter().skip(1) {
        assert_eq!(byte, 0);
    }
}

#[test]
fn graphics_rotation_90() {
    let mut display = Display::<200, 200, false, { 200 * 200 / 8 }, Color>::default();
    display.set_rotation(DisplayRotation::Rotate90);
    line(&mut display, (0, 192), (0, 199), Color::Black);

    let buffer = display.buffer();

    assert_eq!(buffer[0], Color::Black.get_byte_value());

    for &byte in buffer.iter().skip(1) {
        assert_eq!(byte, 0);
    }
}

#[test]
fn graphics_rotation_180() {
    let mut display = Display::<200, 200, false, { 200 * 200 / 8 }, Color>::default();
    display.set_rotation(DisplayRotation::Rotate180);
    line(&mut display, (192, 199), (199, 199), Color::Black);

    let buffer = display.buffer();

    println!("{:?}", buffer);

    assert_eq!(buffer[0], Color::Black.get_byte_value());

    for &byte in buffer.iter().skip(1) {
        assert_eq!(byte, 0);
    }
}

#[test]
fn graphics_rotation_270() {
    let mut display = Display::<200, 200, false, { 200 * 200 / 8 }, Color>::default();
    display.set_rotation(DisplayRotation::Rotate270);
    line(&mut display, (199, 0), (199, 7), Color::Black);

    let buffer = display.buffer();

    println!("{:?}", buffer);

    assert_eq!(buffer[0], Color::Black.get_byte_value());

    for &byte in buffer.iter().skip(1) {
        assert_eq!(byte, 0);
    }
}

#[test]
fn graphics_set_pixel_tricolor_false() {
    let mut display = Display::<4, 4, false, { 4 * 4 * 2 / 8 }, TriColor>::default();
    display.set_pixel(Pixel(Point::new(0, 0), TriColor::White));
    display.set_pixel(Pixel(Point::new(1, 0), TriColor::Chromatic));
    display.set_pixel(Pixel(Point::new(2, 0), TriColor::Black));

    let bw_buffer = display.bw_buffer();
    let chromatic_buffer = display.chromatic_buffer();

    println!("{:?}", bw_buffer);
    println!("{:?}", chromatic_buffer);

    assert_eq!(bw_buffer, [192, 0]);
    assert_eq!(chromatic_buffer, [64, 0]);
}

#[test]
fn graphics_set_pixel_tricolor_true() {
    let mut display = Display::<4, 4, true, { 4 * 4 * 2 / 8 }, TriColor>::default();
    display.set_pixel(Pixel(Point::new(0, 0), TriColor::White));
    display.set_pixel(Pixel(Point::new(1, 0), TriColor::Chromatic));
    display.set_pixel(Pixel(Point::new(2, 0), TriColor::Black));

    let bw_buffer = display.bw_buffer();
    let chromatic_buffer = display.chromatic_buffer();

    println!("{:?}", bw_buffer);
    println!("{:?}", chromatic_buffer);

    assert_eq!(bw_buffer, [128, 0]);
    assert_eq!(chromatic_buffer, [64, 0]);
}

#[test]
fn white_line_fills_first_byte_under_every_rotation() {
    let cases = [
        (DisplayRotation::Rotate0, (0, 0), (7, 0)),
        (DisplayRotation::Rotate90, (0, 192), (0, 199)),
        (DisplayRotation::Rotate180, (192, 199), (199, 199)),
        (DisplayRotation::Rotate270, (199, 0), (199, 7)),
    ];
    for (rotation, from, to) in cases {
        let mut display = Mono200::default();
        display.set_rotation(rotation);
        line(&mut display, from, to, Color::White);
        let buffer = display.buffer();
        assert_eq!(buffer[0], Color::White.get_byte_value());
        assert_eq!(buffer[0], 0xFF);
        for &byte in buffer.iter().skip(1) {
            assert_eq!(byte, 0);
        }
    }
}

#[test]
fn single_pixels_land_on_their_bits() {
    let mut display = Display::<20, 3, false, 9, Color>::default();
    display.set_pixel(Pixel(Point::new(0, 0), Color::White));
    assert_eq!(display.buffer(), [0x80, 0, 0, 0, 0, 0, 0, 0, 0]);
    display.set_pixel(Pixel(Point::new(7, 0), Color::White));
    assert_eq!(display.buffer(), [0x81, 0, 0, 0, 0, 0, 0, 0, 0]);
    display.set_pixel(Pixel(Point::new(19, 2), Color::White));
    assert_eq!(display.buffer(), [0x81, 0, 0, 0, 0, 0, 0, 0, 0x10]);
    display.set_pixel(Pixel(Point::new(9, 1), Color::White));
    assert_eq!(display.buffer(), [0x81, 0, 0, 0, 0x40, 0, 0, 0, 0x10]);
    display.set_pixel(Pixel(Point::new(0, 0), Color::Black));
    assert_eq!(display.buffer(), [0x01, 0, 0, 0, 0x40, 0, 0, 0, 0x10]);
}

#[test]
fn rotations_map_corners() {
    // 16 columns by 2 rows: 2 bytes to the row.
    let mut display = Display::<16, 2, false, 4, Color>::default();
    display.set_rotation(DisplayRotation::Rotate90);
    assert_eq!(display.size(), Size::new(2, 16));
    // (x, y) lands in column 16 - 1 - y of row x.
    display.set_pixel(Pixel(Point::new(0, 0), Color::White));
    assert_eq!(display.buffer(), [0, 0x01, 0, 0]);
    display.set_pixel(Pixel(Point::new(1, 15), Color::White));
    assert_eq!(display.buffer(), [0, 0x01, 0x80, 0]);

    let mut display = Display::<16, 2, false, 4, Color>::default();
    display.set_rotation(DisplayRotation::Rotate180);
    assert_eq!(display.size(), Size::new(16, 2));
    display.set_pixel(Pixel(Point::new(0, 0), Color::White));
    assert_eq!(display.buffer(), [0, 0, 0, 0x01]);
    display.set_pixel(Pixel(Point::new(15, 1), Color::White));
    assert_eq!(display.buffer(), [0x80, 0, 0, 0x01]);

    let mut display = Display::<16, 2, false, 4, Color>::default();
    display.set_rotation(DisplayRotation::Rotate270);
    assert_eq!(display.size(), Size::new(2, 16));
    // (x, y) lands in column y of row 2 - 1 - x.
    display.set_pixel(Pixel(Point::new(0, 0), Color::White));
    assert_eq!(display.buffer(), [0, 0, 0x80, 0]);
    display.set_pixel(Pixel(Point::new(1, 15), Color::White));
    assert_eq!(display.buffer(), [0, 0x01, 0x80, 0]);
}

#[test]
fn written_pixel_reads_back_under_every_rotation() {
    let rotations = [
        DisplayRotation::Rotate0,
        DisplayRotation::Rotate90,
        DisplayRotation::Rotate180,
        DisplayRotation::Rotate270,
    ];
    for rotation in rotations {
        let mut display = Display::<13, 5, false, 10, Color>::default();
        display.set_rotation(rotation);
        let size = display.size();
        for y in 0..size.height as i32 {
            for x in 0..size.width as i32 {
                let color = if (x + 2 * y) % 3 == 0 { Color::White } else { Color::Black };
                display.set_pixel(Pixel(Point::new(x, y), color));
                let (col, row) = match rotation {
                    DisplayRotation::Rotate0 => (x, y),
                    DisplayRotation::Rotate90 => (13 - 1 - y, x),
                    DisplayRotation::Rotate180 => (13 - 1 - x, 5 - 1 - y),
                    DisplayRotation::Rotate270 => (y, 5 - 1 - x),
                };
                assert_eq!(mono_at(display.buffer(), 13, col as u32, row as u32), color);
            }
        }
    }
}

#[test]
fn tricolor_pixel_reads_back_under_both_polarities() {
    let colors = [TriColor::Black, TriColor::White, TriColor::Chromatic];
    let mut plain = Display::<16, 3, false, 12, TriColor>::default();
    let mut flipped = Display::<16, 3, true, 12, TriColor>::default();
    plain.set_rotation(DisplayRotation::Rotate180);
    flipped.set_rotation(DisplayRotation::Rotate180);
    for y in 0..3i32 {
        for x in 0..16i32 {
            let color = colors[((x + y) % 3) as usize];
            plain.set_pixel(Pixel(Point::new(x, y), color));
            flipped.set_pixel(Pixel(Point::new(x, y), color));
            let (col, row) = ((15 - x) as u32, (2 - y) as u32);
            assert_eq!(tri_at(plain.buffer(), 16, col, row), color);
            assert_eq!(tri_at(flipped.buffer(), 16, col, row), color);
        }
    }
    // Every pixel still shows what was written last at its place.
    for y in 0..3i32 {
        for x in 0..16i32 {
            let color = colors[((x + y) % 3) as usize];
            let (col, row) = ((15 - x) as u32, (2 - y) as u32);
            assert_eq!(tri_at(plain.buffer(), 16, col, row), color);
            assert_eq!(tri_at(flipped.buffer(), 16, col, row), color);
        }
    }
}

#[test]
fn pixel_outside_the_display_changes_nothing() {
    let rotations = [
        DisplayRotation::Rotate0,
        DisplayRotation::Rotate90,
        DisplayRotation::Rotate180,
        DisplayRotation::Rotate270,
    ];
    for rotation in rotations {
        let mut display = Display::<16, 2, false, 4, Color>::default();
        display.set_rotation(rotation);
        display.set_pixel(Pixel(Point::new(1, 1), Color::White));
        let before = display.buffer().to_vec();
        let size = display.size();
        let outside = [
            Point::new(-1, 0),
            Point::new(0, -1),
            Point::new(size.width as i32, 0),
            Point::new(0, size.height as i32),
            Point::new(i32::MIN, i32::MIN),
            Point::new(i32::MAX, i32::MAX),
            Point::new(i32::MIN, 0),
            Point::new(0, i32::MAX),
        ];
        for point in outside {
            assert!(display.accepts(point));
            display.set_pixel(Pixel(point, Color::White));
            assert_eq!(display.buffer(), &before[..]);
        }
    }
}

#[test]
fn display_tells_where_it_has_no_room() {
    // 4 by 4 pixels in two planes of 2 bytes each: rows 2 and 3 do not fit.
    let display = Display::<4, 4, false, 4, TriColor>::default();
    assert!(display.accepts(Point::new(0, 0)));
    assert!(display.accepts(Point::new(3, 1)));
    assert!(!display.accepts(Point::new(0, 2)));
    assert!(!display.accepts(Point::new(3, 3)));
    assert!(display.accepts(Point::new(4, 3)));
    let roomy = Display::<4, 4, false, 8, TriColor>::default();
    assert!(roomy.accepts(Point::new(3, 3)));
}

#[test]
fn draw_iter_writes_in_order() {
    let mut display = Display::<8, 2, false, 2, Color>::default();
    let pixels = [
        Pixel(Point::new(0, 0), Color::White),
        Pixel(Point::new(1, 0), Color::White),
        Pixel(Point::new(0, 0), Color::Black),
        Pixel(Point::new(9, 9), Color::White),
        Pixel(Point::new(7, 1), Color::White),
    ];
    display.draw_iter(&pixels);
    assert_eq!(display.buffer(), [0x40, 0x01]);
}

#[test]
fn rotation_is_kept_and_changes_no_byte() {
    let mut display = Display::<8, 2, false, 2, Color>::default();
    assert_eq!(display.rotation(), DisplayRotation::Rotate0);
    assert_eq!(DisplayRotation::default(), DisplayRotation::Rotate0);
    display.set_pixel(Pixel(Point::new(3, 1), Color::White));
    display.set_rotation(DisplayRotation::Rotate270);
    assert_eq!(display.rotation(), DisplayRotation::Rotate270);
    assert_eq!(display.buffer(), [0, 0x10]);
}

#[test]
fn var_display_needs_the_whole_frame() {
    let mut exact = [0u8; 9];
    assert!(VarDisplay::<Color>::new(20, 3, &mut exact, false).is_ok());
    let mut short = [0u8; 8];
    assert_eq!(
        VarDisplay::<Color>::new(20, 3, &mut short, false).err(),
        Some(VarDisplayError::BufferTooSmall)
    );
    let mut tri_exact = [0u8; 15];
    assert!(VarDisplay::<TriColor>::new(20, 3, &mut tri_exact, false).is_ok());
    let mut tri_short = [0u8; 14];
    assert_eq!(
        VarDisplay::<TriColor>::new(20, 3, &mut tri_short, false).err(),
        Some(VarDisplayError::BufferTooSmall)
    );
    let mut none = [0u8; 0];
    assert!(VarDisplay::<Color>::new(0, 7, &mut none, false).is_ok());
    assert!(VarDisplay::<Color>::new(1, 1, &mut none, false).is_err());
}

#[test]
fn var_display_buffer_length_follows_geometry() {
    let cases: [(u32, u32, usize); 7] =
        [(200, 200, 5000), (1, 1, 1), (8, 1, 1), (9, 1, 2), (13, 5, 10), (800, 480, 48000), (0, 9, 0)];
    for (width, height, expected) in cases {
        let mut backing = vec![0u8; expected + 3];
        let display = VarDisplay::<Color>::new(width, height, &mut backing, false).unwrap();
        assert_eq!(display.buffer().len(), expected);
    }
    let tri: [(u32, u32, usize); 5] = [(8, 2, 4), (16, 3, 12), (4, 4, 4), (5, 2, 4), (20, 3, 15)];
    for (width, height, expected) in tri {
        let mut backing = vec![0u8; expected + 1];
        let display = VarDisplay::<TriColor>::new(width, height, &mut backing, true).unwrap();
        assert_eq!(display.buffer().len(), expected);
        assert_eq!(display.bw_buffer().len(), expected / 2);
        assert_eq!(display.chromatic_buffer().len(), expected - expected / 2);
    }
}

#[test]
fn var_display_writes_its_frame_only() {
    let mut backing = [0u8; 6];
    {
        let mut display = VarDisplay::<Color>::new(16, 2, &mut backing, false).unwrap();
        assert_eq!(display.size(), Size::new(16, 2));
        display.set_pixel(Pixel(Point::new(15, 1), Color::White));
        display.set_rotation(DisplayRotation::Rotate90);
        assert_eq!(display.rotation(), DisplayRotation::Rotate90);
        assert_eq!(display.size(), Size::new(2, 16));
        display.set_pixel(Pixel(Point::new(0, 15), Color::White));
        assert!(display.accepts(Point::new(1, 15)));
        display.draw_iter(&[Pixel(Point::new(1, 0), Color::White)]);
        assert_eq!(display.buffer(), [0x80, 0, 0, 0x01]);
    }
    assert_eq!(backing, [0x80, 0, 0, 0x01, 0, 0]);
}

#[test]
fn var_display_tricolor_planes() {
    let mut backing = [0u8; 4];
    let mut display = VarDisplay::<TriColor>::new(8, 2, &mut backing, false).unwrap();
    display.set_pixel(Pixel(Point::new(0, 0), TriColor::White));
    display.set_pixel(Pixel(Point::new(1, 1), TriColor::Chromatic));
    assert_eq!(display.bw_buffer(), [0x80, 0x40]);
    assert_eq!(display.chromatic_buffer(), [0x00, 0x40]);
}
