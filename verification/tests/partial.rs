use epd_waveshare::color::{Color, TriColor};
use epd_waveshare::geometry::{Pixel, Point, Size};
use epd_waveshare::graphics::{aligned_width, aligned_x, Display, DisplayRotation, VarDisplay};

fn bit(buffer: &[u8], index: usize, col: u32) -> bool {
    buffer[index] & (0x80 >> (col % 8)) != 0
}

#[test]
fn window_is_widened_to_byte_boundaries() {
    assert_eq!(aligned_x(3), 0);
    assert_eq!(aligned_width(3, 10), 16);
    let display = Display::<800, 480, false, 48000, Color>::default();
    let mut parent = Display::<800, 480, false, 48000, Color>::default();
    let mut frame = display.get_partial_frame(3, 200, 10, 4);
    let params = frame.get_update_parameters(parent.buffer_mut());
    assert_eq!(params.x, 0);
    assert_eq!(params.y, 200);
    assert_eq!(params.width, 16);
    assert_eq!(params.height, 4);
    assert_eq!(params.buffer.len(), 8);
}

#[test]
fn alignment_holds_for_many_windows() {
    for x in 0u32..40 {
        for width in 1u32..40 {
            let start = aligned_x(x);
            let wide = aligned_width(x, width);
            assert!(start <= x);
            assert_eq!(start % 8, 0);
            assert!(start + wide >= x + width);
            assert_eq!(wide % 8, 0);
            assert!(x - start < 8);
            assert!(start + wide - (x + width) < 8);
        }
    }
    assert_eq!(aligned_x(0), 0);
    assert_eq!(aligned_x(7), 0);
    assert_eq!(aligned_x(8), 8);
    assert_eq!(aligned_x(299), 296);
    assert_eq!(aligned_width(0, 1), 8);
    assert_eq!(aligned_width(0, 8), 8);
    assert_eq!(aligned_width(0, 9), 16);
    assert_eq!(aligned_width(7, 2), 16);
    assert_eq!(aligned_width(8, 8), 8);
    assert_eq!(aligned_width(299, 49), 56);
    assert_eq!(aligned_width(5, 0), 8);
    assert_eq!(aligned_x(u32::MAX), u32::MAX - 7);
    assert_eq!(aligned_width(u32::MAX - 8, 1), 8);
}

#[test]
fn frame_starts_blank_with_the_widened_size() {
    let display = Display::<64, 8, false, 64, Color>::default();
    let frame = display.get_partial_frame(13, 2, 20, 3);
    assert_eq!(frame.size(), Size::new(20, 3));
    assert_eq!(frame.rotation(), DisplayRotation::Rotate0);
    let mut parent = Display::<64, 8, false, 64, Color>::default();
    let mut frame = frame;
    let params = frame.get_update_parameters(parent.buffer_mut());
    // Columns 8 to 39: 4 bytes to the row.
    assert_eq!((params.x, params.y, params.width, params.height), (8, 2, 32, 3));
    assert_eq!(params.buffer, [0u8; 12]);

    let tri = Display::<64, 8, false, 128, TriColor>::default();
    let frame = tri.get_partial_frame(13, 2, 20, 3);
    assert_eq!(frame.bw_buffer(), [0u8; 12]);
    assert_eq!(frame.chromatic_buffer(), [0u8; 12]);
}

#[test]
fn frame_pixels_are_written_in_window_coordinates() {
    let display = Display::<64, 8, false, 64, Color>::default();
    let mut parent = Display::<64, 8, false, 64, Color>::default();
    // Window from column 13: 5 columns of padding on the left.
    let mut frame = display.get_partial_frame(13, 2, 20, 3);
    frame.set_pixel(Pixel(Point::new(0, 0), Color::White));
    frame.set_pixel(Pixel(Point::new(19, 2), Color::White));
    let params = frame.get_update_parameters(parent.buffer_mut());
    assert_eq!(params.buffer, [0x04, 0, 0, 0, 0, 0, 0, 0, 0, 0, 0, 0x80]);
    // The window went back into the display at columns 13 and 32.
    let mut expected = [0u8; 64];
    expected[2 * 8 + 1] = 0x04;
    expected[4 * 8 + 4] = 0x80;
    assert_eq!(parent.buffer(), expected);
}

#[test]
fn frame_rotations_move_by_the_padding() {
    let display = Display::<64, 8, false, 64, Color>::default();
    let mut scratch = Display::<64, 8, false, 64, Color>::default();

    // A quarter turn: the window is 3 wide and 20 high to the caller, and
    // its point (x, y) lands in column 32 - 1 - (y + 5) of row x.
    let mut frame = display.get_partial_frame(13, 2, 20, 3);
    frame.set_rotation(DisplayRotation::Rotate90);
    assert_eq!(frame.size(), Size::new(3, 20));
    frame.set_pixel(Pixel(Point::new(0, 2), Color::White));
    frame.set_pixel(Pixel(Point::new(2, 19), Color::White));
    // This one lands in column 26, in the padding on the right, where the
    // display shows through.
    frame.set_pixel(Pixel(Point::new(1, 0), Color::White));
    let first = frame.get_update_parameters(scratch.buffer_mut()).buffer.to_vec();
    assert_eq!(first, [0, 0, 0, 0x80, 0, 0, 0, 0, 0x01, 0, 0, 0]);

    // A half turn: (x, y) lands in column 32 - 1 - (x - 5) of row 3 - 1 - y.
    let mut scratch = Display::<64, 8, false, 64, Color>::default();
    let mut frame = display.get_partial_frame(13, 2, 20, 3);
    frame.set_rotation(DisplayRotation::Rotate180);
    frame.set_pixel(Pixel(Point::new(12, 0), Color::White));
    let second = frame.get_update_parameters(scratch.buffer_mut()).buffer.to_vec();
    assert_eq!(second, [0, 0, 0, 0, 0, 0, 0, 0, 0, 0, 0, 0x80]);

    // Three quarter turns: (x, y) lands in column y - 5 of row 3 - 1 - x.
    let mut scratch = Display::<64, 8, false, 64, Color>::default();
    let mut frame = display.get_partial_frame(13, 2, 20, 3);
    frame.set_rotation(DisplayRotation::Rotate270);
    frame.set_pixel(Pixel(Point::new(0, 13), Color::White));
    let third = frame.get_update_parameters(scratch.buffer_mut()).buffer.to_vec();
    assert_eq!(third, [0, 0, 0, 0, 0, 0, 0, 0, 0, 0x80, 0, 0]);
}

#[test]
fn padding_shows_the_display_after_extraction() {
    let mut parent = Display::<32, 4, false, 16, Color>::default();
    // A display that is white all over.
    for y in 0..4 {
        for x in 0..32 {
            parent.set_pixel(Pixel(Point::new(x, y), Color::White));
        }
    }
    assert_eq!(parent.buffer(), [0xFFu8; 16]);
    // Columns 11 to 20 of rows 1 and 2; widened: columns 8 to 23.
    let mut frame = parent.get_partial_frame(11, 1, 10, 2);
    // The caller paints its window black, and more than its window.
    for y in -3..6 {
        for x in -12..24 {
            frame.set_pixel(Pixel(Point::new(x, y), Color::Black));
        }
    }
    let params = frame.get_update_parameters(parent.buffer_mut());
    assert_eq!((params.x, params.y, params.width, params.height), (8, 1, 16, 2));
    // 3 columns of padding on the left, 3 on the right.
    assert_eq!(params.buffer, [0xE0, 0x07, 0xE0, 0x07]);
    assert_eq!(
        parent.buffer(),
        [
            0xFF, 0xFF, 0xFF, 0xFF, //
            0xFF, 0xE0, 0x07, 0xFF, //
            0xFF, 0xE0, 0x07, 0xFF, //
            0xFF, 0xFF, 0xFF, 0xFF,
        ]
    );
}

#[test]
fn every_pixel_outside_the_window_is_kept() {
    for x in 0u32..24 {
        for width in 1u32..=(24 - x).min(12) {
            let mut parent = Display::<24, 5, false, 15, Color>::default();
            for row in 0..5i32 {
                for col in 0..24i32 {
                    if (col * 7 + row * 3) % 5 < 2 {
                        parent.set_pixel(Pixel(Point::new(col, row), Color::White));
                    }
                }
            }
            let before = parent.buffer().to_vec();
            let mut frame = parent.get_partial_frame(x, 1, width, 3);
            for row in 0..3i32 {
                for col in 0..width as i32 {
                    if (col + row) % 2 == 0 {
                        frame.set_pixel(Pixel(Point::new(col, row), Color::White));
                    }
                }
            }
            let sent = frame.get_update_parameters(parent.buffer_mut()).buffer.to_vec();
            let start = aligned_x(x);
            let wide = aligned_width(x, width);
            let after = parent.buffer();
            for row in 0..5u32 {
                for col in 0..24u32 {
                    let index = (row * 3 + col / 8) as usize;
                    let inside = col >= x && col < x + width && (1..4).contains(&row);
                    if inside {
                        let expected = ((col - x) + (row - 1)) % 2 == 0;
                        assert_eq!(bit(after, index, col), expected);
                    } else {
                        assert_eq!(bit(after, index, col), bit(&before, index, col));
                    }
                    // What is sent is what the display now shows there.
                    if col >= start && col < start + wide && (1..4).contains(&row) {
                        let sent_index = ((row - 1) * (wide / 8) + (col - start) / 8) as usize;
                        assert_eq!(bit(&sent, sent_index, col), bit(after, index, col));
                    }
                }
            }
        }
    }
}

#[test]
fn tricolor_window_is_reconciled_in_both_planes() {
    let mut parent = Display::<16, 3, false, 12, TriColor>::default();
    for y in 0..3 {
        for x in 0..16 {
            parent.set_pixel(Pixel(Point::new(x, y), TriColor::Chromatic));
        }
    }
    assert_eq!(parent.buffer(), [0xFFu8; 12]);
    // Columns 2 to 5 of row 1; widened: columns 0 to 7.
    let mut frame = parent.get_partial_frame(2, 1, 4, 1);
    frame.draw_iter(&[
        Pixel(Point::new(0, 0), TriColor::Black),
        Pixel(Point::new(1, 0), TriColor::White),
        Pixel(Point::new(2, 0), TriColor::Chromatic),
        Pixel(Point::new(3, 0), TriColor::Black),
    ]);
    assert_eq!(frame.bw_buffer(), [0x18]);
    assert_eq!(frame.chromatic_buffer(), [0x08]);
    let params = frame.get_update_parameters(parent.buffer_mut());
    assert_eq!((params.x, params.y, params.width, params.height), (0, 1, 8, 1));
    assert_eq!(params.buffer, [0xDB, 0xCB]);
    assert_eq!(parent.bw_buffer(), [0xFF, 0xFF, 0xDB, 0xFF, 0xFF, 0xFF]);
    assert_eq!(parent.chromatic_buffer(), [0xFF, 0xFF, 0xCB, 0xFF, 0xFF, 0xFF]);
}

#[test]
fn window_on_byte_boundaries_needs_no_padding() {
    let mut parent = Display::<32, 2, false, 8, Color>::default();
    for x in 0..32 {
        parent.set_pixel(Pixel(Point::new(x, 0), Color::White));
    }
    let mut frame = parent.get_partial_frame(8, 0, 16, 2);
    frame.set_pixel(Pixel(Point::new(0, 1), Color::White));
    let params = frame.get_update_parameters(parent.buffer_mut());
    assert_eq!((params.x, params.width), (8, 16));
    assert_eq!(params.buffer, [0, 0, 0x80, 0]);
    assert_eq!(parent.buffer(), [0xFF, 0, 0, 0xFF, 0, 0x80, 0, 0]);
}

#[test]
fn extraction_twice_gives_the_same() {
    let mut parent = Display::<16, 2, false, 4, Color>::default();
    parent.set_pixel(Pixel(Point::new(0, 0), Color::White));
    parent.set_pixel(Pixel(Point::new(15, 1), Color::White));
    let mut frame = parent.get_partial_frame(1, 0, 14, 2);
    frame.set_pixel(Pixel(Point::new(0, 0), Color::White));
    let first = frame.get_update_parameters(parent.buffer_mut()).buffer.to_vec();
    let shown = parent.buffer().to_vec();
    let second = frame.get_update_parameters(parent.buffer_mut()).buffer.to_vec();
    assert_eq!(first, [0xC0, 0x00, 0x00, 0x01]);
    assert_eq!(first, second);
    assert_eq!(parent.buffer(), &shown[..]);
}

#[test]
fn var_display_lends_its_frame_to_a_window() {
    let mut backing = [0xFFu8; 10];
    let mut display = VarDisplay::<Color>::new(16, 4, &mut backing, false).unwrap();
    let mut frame = display.get_partial_frame(4, 1, 8, 2);
    let params = frame.get_update_parameters(display.buffer_mut());
    assert_eq!((params.x, params.y, params.width, params.height), (0, 1, 16, 2));
    assert_eq!(params.buffer, [0xF0, 0x0F, 0xF0, 0x0F]);
    assert_eq!(display.buffer(), [0xFF, 0xFF, 0xF0, 0x0F, 0xF0, 0x0F, 0xFF, 0xFF]);
}

#[test]
fn display_tells_which_windows_fit() {
    let display = Display::<24, 5, false, 15, Color>::default();
    assert!(display.accepts_window(0, 0, 24, 5));
    assert!(display.accepts_window(23, 4, 1, 1));
    assert!(display.accepts_window(3, 1, 10, 3));
    // Past the last column, past the last row.
    assert!(!display.accepts_window(17, 0, 8, 1));
    assert!(!display.accepts_window(0, 3, 8, 3));
    assert!(!display.accepts_window(0, 5, 8, 1));
    // A window without rows takes no room; one without columns needs a byte
    // to live in.
    assert!(display.accepts_window(0, 5, 8, 0));
    assert!(!display.accepts_window(8, 0, 0, 1));
    assert!(display.accepts_window(9, 0, 0, 1));
    assert!(!display.accepts_window(u32::MAX, 0, 1, 1));
    assert!(!display.accepts_window(0, u32::MAX, 1, 1));
    assert!(!display.accepts_window(0, 0, u32::MAX, u32::MAX));

    // A width that is no multiple of 8 leaves room in the last byte of a row.
    let odd = Display::<20, 2, false, 6, Color>::default();
    assert!(odd.accepts_window(16, 0, 4, 2));
    assert!(odd.accepts_window(16, 0, 8, 2));
    assert!(!odd.accepts_window(16, 0, 9, 2));

    // Two planes: each holds the rows in its half.
    let tri = Display::<16, 3, false, 12, TriColor>::default();
    assert!(tri.accepts_window(0, 0, 16, 3));
    assert!(!tri.accepts_window(0, 0, 16, 4));
    let cramped = Display::<4, 4, false, 4, TriColor>::default();
    assert!(cramped.accepts_window(0, 0, 4, 2));
    assert!(!cramped.accepts_window(0, 0, 4, 3));

    let mut backing = [0u8; 10];
    let var = VarDisplay::<Color>::new(16, 4, &mut backing, false).unwrap();
    assert!(var.accepts_window(0, 0, 16, 4));
    assert!(!var.accepts_window(0, 0, 16, 5));
    assert!(!var.accepts_window(9, 0, 8, 1));
}

#[test]
fn empty_window_inside_a_byte_is_all_padding() {
    let mut parent = Display::<16, 1, false, 2, Color>::default();
    for x in 0..16 {
        parent.set_pixel(Pixel(Point::new(x, 0), Color::White));
    }
    let mut frame = parent.get_partial_frame(9, 0, 0, 1);
    frame.set_pixel(Pixel(Point::new(0, 0), Color::Black));
    let params = frame.get_update_parameters(parent.buffer_mut());
    assert_eq!((params.x, params.y, params.width, params.height), (8, 0, 8, 1));
    assert_eq!(params.buffer, [0xFF]);
    assert_eq!(parent.buffer(), [0xFF, 0xFF]);
}
