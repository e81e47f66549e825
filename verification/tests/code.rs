use ansi_color_codec::wire::block_bytes;
use ansi_color_codec::{Code, Error};

#[test]
fn nibble_boundaries_map_to_color_numbers() {
    assert_eq!(Code::from_lower_nibble(0).number(), 40);
    assert_eq!(Code::from_lower_nibble(7).number(), 47);
    assert_eq!(Code::from_lower_nibble(8).number(), 100);
    assert_eq!(Code::from_lower_nibble(15).number(), 107);
}

#[test]
fn every_nibble_comes_back() {
    for nibble in 0..16u8 {
        assert_eq!(Code::from_nibble(nibble).to_nibble(), nibble);
        assert_eq!(Code::from_lower_nibble(nibble).to_nibble(), nibble);
        assert_eq!(Code::from_upper_nibble(nibble << 4).to_nibble(), nibble);
    }
}

#[test]
fn every_color_number_comes_back() {
    for number in (40..=47u8).chain(100..=107u8) {
        let code = Code::try_from(number).unwrap();
        assert_eq!(code.number(), number);
        assert_eq!(Code::from_nibble(code.to_nibble()), code);
    }
}

#[test]
fn the_halves_of_a_byte_are_told_apart() {
    assert_eq!(Code::from_upper_nibble(0x48).number(), 44);
    assert_eq!(Code::from_lower_nibble(0x48).number(), 100);
    assert_eq!(Code::from_upper_nibble(0xf0).number(), 107);
    assert_eq!(Code::from_lower_nibble(0xf0).number(), 40);
    assert_eq!(Code::from_upper_nibble(0x0f).number(), 40);
    assert_eq!(Code::from_lower_nibble(0x0f).number(), 107);
}

#[test]
fn invalid_numbers_are_rejected() {
    assert_eq!(Code::try_from(48), Err(Error::ValueOutOfBounds(48)));
    assert_eq!(Code::try_from(99), Err(Error::ValueOutOfBounds(99)));
    assert_eq!(Code::try_from(108), Err(Error::ValueOutOfBounds(108)));
    assert_eq!(Code::try_from(39), Err(Error::ValueOutOfBounds(39)));
    assert_eq!(Code::try_from(0), Err(Error::ValueOutOfBounds(0)));
    assert_eq!(Code::try_from(255), Err(Error::ValueOutOfBounds(255)));
}

#[test]
fn exactly_sixteen_numbers_are_accepted() {
    let accepted = (0..=255u8).filter(|&number| Code::try_from(number).is_ok()).count();
    assert_eq!(accepted, 16);
}

#[test]
fn a_code_is_written_as_its_block() {
    assert_eq!(Code::new(44).to_string(), "\x1b[44m ");
    assert_eq!(Code::new(100).to_string(), "\x1b[100m ");
    assert_eq!(Code::new(40).to_bytes(), vec![0x1b, b'[', b'4', b'0', b'm', b' ']);
    assert_eq!(Code::new(107).to_bytes(), vec![0x1b, b'[', b'1', b'0', b'7', b'm', b' ']);
}

#[test]
fn a_block_holds_the_decimal_digits_of_its_number() {
    assert_eq!(block_bytes(0), b"\x1b[0m ".to_vec());
    assert_eq!(block_bytes(7), b"\x1b[7m ".to_vec());
    assert_eq!(block_bytes(10), b"\x1b[10m ".to_vec());
    assert_eq!(block_bytes(99), b"\x1b[99m ".to_vec());
    assert_eq!(block_bytes(100), b"\x1b[100m ".to_vec());
    assert_eq!(block_bytes(255), b"\x1b[255m ".to_vec());
}

#[test]
fn the_reset_text_is_the_block_of_zero() {
    assert_eq!(ansi_color_codec::RESET, "\x1b[0m ");
    assert_eq!(ansi_color_codec::RESET.as_bytes(), block_bytes(0).as_slice());
}

#[test]
fn byte_counts_from_the_first_color() {
    assert_eq!(Code::new(40).byte(), 0);
    assert_eq!(Code::new(45).byte(), 5);
    assert_eq!(Code::new(47).byte(), 7);
    assert_eq!(Code::new(100).byte(), 60);
}

#[test]
fn triplet_gives_three_bits_least_significant_first() {
    assert_eq!(Code::new(40).triplet(), [false, false, false]);
    assert_eq!(Code::new(41).triplet(), [true, false, false]);
    assert_eq!(Code::new(42).triplet(), [false, true, false]);
    assert_eq!(Code::new(44).triplet(), [false, false, true]);
    assert_eq!(Code::new(46).triplet(), [false, true, true]);
    assert_eq!(Code::new(47).triplet(), [true, true, true]);
}

#[test]
fn triplets_gives_the_bits_one_by_one() {
    let bits: Vec<bool> = Code::new(45).triplets().collect();
    assert_eq!(bits, vec![true, false, true]);
}

#[test]
fn codes_compare_by_their_number() {
    assert_eq!(Code::new(44), Code::from_nibble(4));
    assert_ne!(Code::new(44), Code::new(45));
    let copy = Code::new(101);
    let other = copy;
    assert_eq!(copy, other);
}

#[test]
fn a_code_gives_its_bytes_one_by_one() {
    let bytes: Vec<u8> = Code::new(104).into_iter().collect();
    assert_eq!(bytes, b"\x1b[104m ".to_vec());
}
