use nibble_stego::nibbles::{
    assemble_payload, high, join, low, make_even, pad_to_triples, split_nibbles, with_terminator,
};

#[test]
fn high_and_low_halves_of_a_byte() {
    assert_eq!(high(0xA7), 0x0A);
    assert_eq!(low(0xA7), 0x07);
    assert_eq!(high(0x00), 0);
    assert_eq!(low(0xFF), 15);
    assert_eq!(high(0xF0), 15);
    assert_eq!(low(0xF0), 0);
}

#[test]
fn join_uses_only_the_low_half_of_the_second_nibble() {
    assert_eq!(join(0x0A, 0x07), 0xA7);
    assert_eq!(join(0x0A, 0xF7), 0xA7);
    assert_eq!(join(0, 0), 0);
    assert_eq!(join(15, 15), 0xFF);
}

#[test]
fn join_inverts_the_split_for_every_byte() {
    for b in 0..=255u8 {
        assert_eq!(join(high(b), low(b)), b);
    }
}

#[test]
fn terminator_is_appended_once() {
    assert_eq!(with_terminator(&[]), vec![0u8]);
    assert_eq!(with_terminator(&[0x41, 0x42]), vec![0x41, 0x42, 0x00]);
    assert_eq!(with_terminator(&[0x00]), vec![0x00, 0x00]);
}

#[test]
fn split_puts_the_high_nibble_first() {
    assert_eq!(split_nibbles(&[]), Vec::<u8>::new());
    assert_eq!(split_nibbles(&[0x41, 0x42, 0x00]), vec![4, 1, 4, 2, 0, 0]);
    assert_eq!(split_nibbles(&[0xFF, 0x1E]), vec![15, 15, 1, 14]);
}

#[test]
fn padding_after_remainder_one_adds_two_zeros() {
    let mut nibbles = vec![9u8, 8, 7, 6];
    pad_to_triples(&mut nibbles);
    assert_eq!(nibbles, vec![9, 8, 7, 6, 0, 0]);
}

#[test]
fn padding_after_remainder_two_adds_one_zero() {
    let mut nibbles = vec![9u8, 8];
    pad_to_triples(&mut nibbles);
    assert_eq!(nibbles, vec![9, 8, 0]);
}

#[test]
fn padding_after_remainder_zero_adds_nothing() {
    let mut nibbles = vec![9u8, 8, 7];
    pad_to_triples(&mut nibbles);
    assert_eq!(nibbles, vec![9, 8, 7]);
    let mut none: Vec<u8> = Vec::new();
    pad_to_triples(&mut none);
    assert!(none.is_empty());
}

#[test]
fn odd_run_of_nibbles_gains_one_zero() {
    let mut odd = vec![1u8, 2, 3];
    make_even(&mut odd);
    assert_eq!(odd, vec![1, 2, 3, 0]);
    let mut even = vec![1u8, 2];
    make_even(&mut even);
    assert_eq!(even, vec![1, 2]);
}

#[test]
fn assembling_stops_at_the_first_zero_byte() {
    let nibbles = [4u8, 1, 4, 2, 0, 0, 4, 3];
    assert_eq!(assemble_payload(&nibbles), vec![0x41, 0x42]);
}

#[test]
fn assembling_a_leading_terminator_gives_nothing() {
    assert_eq!(assemble_payload(&[0, 0, 4, 1]), Vec::<u8>::new());
}

#[test]
fn assembling_without_a_terminator_drops_the_last_byte() {
    assert_eq!(assemble_payload(&[4, 1, 4, 2]), vec![0x41]);
    assert_eq!(assemble_payload(&[4, 1]), Vec::<u8>::new());
    assert_eq!(assemble_payload(&[]), Vec::<u8>::new());
}

#[test]
fn assembling_ignores_an_unpaired_nibble() {
    assert_eq!(assemble_payload(&[4, 1, 0, 0, 7]), vec![0x41]);
}

#[test]
fn assembling_masks_the_second_nibble() {
    assert_eq!(assemble_payload(&[4, 0xF1, 0, 0]), vec![0x41]);
}
