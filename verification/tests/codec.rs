use nibble_stego::canvas::Canvas;
use nibble_stego::codec::{embed, extract, extract_text, read_nibbles, stamp, CapacityError};
use nibble_stego::text::lossy_text;

fn filled(width: u32, height: u32, px: [u8; 4]) -> Canvas {
    let mut bytes: Vec<u8> = Vec::new();
    for _ in 0..(width as usize * height as usize) {
        bytes.extend_from_slice(&px);
    }
    Canvas::from_raw(width, height, bytes).unwrap()
}

fn counting(width: u32, height: u32) -> Canvas {
    let n = width as usize * height as usize * 4;
    let bytes: Vec<u8> = (0..n).map(|i| (i * 7 + 3) as u8).collect();
    Canvas::from_raw(width, height, bytes).unwrap()
}

#[test]
fn from_raw_needs_four_bytes_for_each_pixel() {
    assert!(Canvas::from_raw(2, 2, vec![0u8; 16]).is_some());
    assert!(Canvas::from_raw(2, 2, vec![0u8; 15]).is_none());
    assert!(Canvas::from_raw(2, 2, vec![0u8; 20]).is_some());
    assert!(Canvas::from_raw(0, 5, Vec::new()).is_some());
}

#[test]
fn pixels_are_laid_out_row_by_row() {
    let bytes: Vec<u8> = (0..24u8).collect();
    let canvas = Canvas::from_raw(3, 2, bytes.clone()).unwrap();
    assert_eq!(canvas.width(), 3);
    assert_eq!(canvas.height(), 2);
    assert_eq!(canvas.pixel(0, 0), Some((0, 1, 2, 3)));
    assert_eq!(canvas.pixel(2, 0), Some((8, 9, 10, 11)));
    assert_eq!(canvas.pixel(0, 1), Some((12, 13, 14, 15)));
    assert_eq!(canvas.pixel(2, 1), Some((20, 21, 22, 23)));
    assert_eq!(canvas.pixel(3, 0), None);
    assert_eq!(canvas.pixel(0, 2), None);
    assert_eq!(canvas.into_raw(), bytes);
}

#[test]
fn stamp_keeps_high_halves_and_alpha() {
    assert_eq!(stamp((0xAB, 0xCD, 0xEF, 0x12), 1, 2, 3), (0xA1, 0xC2, 0xE3, 0x12));
    assert_eq!(stamp((0x0F, 0xF0, 0xFF, 0x00), 0, 15, 0), (0x00, 0xFF, 0xF0, 0x00));
}

#[test]
fn read_nibbles_takes_three_low_halves_from_each_pixel() {
    let canvas = Canvas::from_raw(2, 1, vec![0x12, 0x34, 0x56, 0x78, 0x9A, 0xBC, 0xDE, 0xF0]).unwrap();
    assert_eq!(read_nibbles(&canvas), vec![2, 4, 6, 10, 12, 14]);
    let empty = Canvas::from_raw(0, 3, Vec::new()).unwrap();
    assert_eq!(read_nibbles(&empty), Vec::<u8>::new());
}

#[test]
fn two_letters_fill_two_pixels() {
    let mut canvas = filled(2, 1, [0xFF, 0xFF, 0xFF, 0xFF]);
    assert_eq!(embed(&[0x41, 0x42], &mut canvas), Ok(()));
    assert_eq!(canvas.pixel(0, 0), Some((0xF4, 0xF1, 0xF4, 0xFF)));
    assert_eq!(canvas.pixel(1, 0), Some((0xF2, 0xF0, 0xF0, 0xFF)));
    assert_eq!(read_nibbles(&canvas), vec![4, 1, 4, 2, 0, 0]);
    assert_eq!(extract(&canvas), vec![0x41, 0x42]);
    assert_eq!(extract_text(&canvas), "AB");
}

#[test]
fn empty_payload_comes_back_empty() {
    let mut canvas = filled(3, 3, [0x55, 0x66, 0x77, 0x88]);
    assert_eq!(embed(&[], &mut canvas), Ok(()));
    assert_eq!(canvas.pixel(0, 0), Some((0x50, 0x60, 0x70, 0x88)));
    assert_eq!(canvas.pixel(1, 0), Some((0x55, 0x66, 0x77, 0x88)));
    assert_eq!(extract(&canvas), Vec::<u8>::new());
    assert_eq!(extract_text(&canvas), "");
}

#[test]
fn invalid_utf8_survives_as_bytes_and_is_replaced_in_text() {
    let mut canvas = counting(4, 4);
    assert_eq!(embed(&[0x41, 0xFF, 0x42], &mut canvas), Ok(()));
    assert_eq!(extract(&canvas), vec![0x41, 0xFF, 0x42]);
    assert_eq!(extract_text(&canvas), "A\u{FFFD}B");
}

#[test]
fn lossy_text_replaces_only_what_is_invalid() {
    assert_eq!(lossy_text(&[0xFF]), "\u{FFFD}");
    assert_eq!(lossy_text("héllo".as_bytes()), "héllo");
    assert_eq!(lossy_text(&[]), "");
}

#[test]
fn round_trip_over_several_rows() {
    let payload: Vec<u8> = b"The quick brown fox jumps over the lazy dog.\n".to_vec();
    let mut canvas = counting(5, 7);
    assert_eq!(embed(&payload, &mut canvas), Ok(()));
    assert_eq!(extract(&canvas), payload);
    assert_eq!(extract_text(&canvas), "The quick brown fox jumps over the lazy dog.\n");
}

#[test]
fn round_trip_of_every_nonzero_byte() {
    let payload: Vec<u8> = (1..=255u8).collect();
    let mut canvas = counting(19, 9);
    assert_eq!(embed(&payload, &mut canvas), Ok(()));
    assert_eq!(extract(&canvas), payload);
}

#[test]
fn payload_with_inner_zero_is_cut_there() {
    let mut canvas = counting(4, 4);
    assert_eq!(embed(&[0x41, 0x00, 0x42], &mut canvas), Ok(()));
    assert_eq!(extract(&canvas), vec![0x41]);
}

#[test]
fn exact_capacity_succeeds() {
    // four bytes and the terminator: ten nibbles, padded to twelve, four pixels
    let mut canvas = counting(2, 2);
    assert_eq!(embed(&[1, 2, 3, 4], &mut canvas), Ok(()));
    assert_eq!(extract(&canvas), vec![1, 2, 3, 4]);
}

#[test]
fn one_pixel_short_fails_and_changes_nothing() {
    let mut canvas = counting(3, 1);
    let outcome = embed(&[1, 2, 3, 4], &mut canvas);
    assert_eq!(outcome, Err(CapacityError { required: 4, available: 3 }));
    let untouched = counting(3, 1);
    assert_eq!(canvas.into_raw(), untouched.into_raw());
}

#[test]
fn required_pixels_follow_the_padding_rule() {
    // payload length -> pixels: (2 * (len + 1) + 2) / 3
    let cases: [(usize, u64); 6] = [(0, 1), (1, 2), (2, 2), (3, 3), (4, 4), (5, 4)];
    for (len, pixels) in cases {
        let payload = vec![0x31u8; len];
        let mut none = filled(0, 0, [0, 0, 0, 0]);
        assert_eq!(
            embed(&payload, &mut none),
            Err(CapacityError { required: pixels, available: 0 })
        );
        let mut exact = filled(pixels as u32, 1, [0, 0, 0, 0]);
        assert_eq!(embed(&payload, &mut exact), Ok(()));
        assert_eq!(extract(&exact), payload);
    }
}

#[test]
fn image_without_columns_holds_nothing() {
    let mut canvas = Canvas::from_raw(0, 4, Vec::new()).unwrap();
    assert_eq!(embed(&[], &mut canvas), Err(CapacityError { required: 1, available: 0 }));
    assert_eq!(extract(&canvas), Vec::<u8>::new());
    assert_eq!(extract_text(&canvas), "");
}

#[test]
fn embedding_touches_only_low_halves_of_the_used_pixels() {
    let before = counting(4, 3).into_raw();
    let mut canvas = counting(4, 3);
    // three bytes and the terminator: eight nibbles, padded to nine, three pixels
    assert_eq!(embed(&[0xDE, 0xAD, 0xBE], &mut canvas), Ok(()));
    assert_eq!(canvas.width(), 4);
    assert_eq!(canvas.height(), 3);
    let after = canvas.into_raw();
    assert_eq!(after.len(), before.len());
    let written: [u8; 9] = [0xD, 0xE, 0xA, 0xD, 0xB, 0xE, 0, 0, 0];
    for i in 0..12usize {
        for c in 0..3usize {
            let (old, new) = (before[4 * i + c], after[4 * i + c]);
            assert_eq!(new & 0xF0, old & 0xF0);
            if i < 3 {
                assert_eq!(new & 0x0F, written[3 * i + c]);
            } else {
                assert_eq!(new, old);
            }
        }
        assert_eq!(after[4 * i + 3], before[4 * i + 3]);
    }
}

#[test]
fn image_never_written_to_still_yields_something() {
    // no zero byte anywhere: all assembled bytes but the last come back
    let canvas = filled(2, 1, [0x1F, 0x2F, 0x3F, 0x00]);
    assert_eq!(extract(&canvas), vec![0xFF, 0xFF]);
    // one pixel: three nibbles, evened with a zero
    let single = filled(1, 1, [0x01, 0x02, 0x03, 0x00]);
    assert_eq!(read_nibbles(&single), vec![1, 2, 3]);
    assert_eq!(extract(&single), vec![0x12]);
}
