use ansi_color_codec::pair_decoder::PairDecoder;
use ansi_color_codec::parser::Parser;
use ansi_color_codec::{Codec, Error};

fn decoder(text: &[u8]) -> PairDecoder<std::vec::IntoIter<u8>> {
    PairDecoder::from(Parser::from(text.to_vec().into_iter()))
}

fn all(text: &[u8]) -> Vec<Result<u8, Error>> {
    decoder(text).collect()
}

#[test]
fn two_blocks_give_one_byte() {
    assert_eq!(all(b"\x1b[44m \x1b[100m "), vec![Ok(0x48)]);
    assert_eq!(all(b"\x1b[40m \x1b[40m "), vec![Ok(0x00)]);
    assert_eq!(all(b"\x1b[107m \x1b[107m "), vec![Ok(0xff)]);
    assert_eq!(all(b"\x1b[100m \x1b[44m "), vec![Ok(0x84)]);
}

#[test]
fn no_bytes_give_no_bytes() {
    assert_eq!(decoder(b"").next(), None);
    assert_eq!(all(b""), vec![]);
}

#[test]
fn a_single_block_misses_its_second() {
    assert_eq!(all(b"\x1b[44m "), vec![Err(Error::MissingSecondColorCodeBlock)]);
}

#[test]
fn three_blocks_give_a_byte_and_miss_a_block() {
    assert_eq!(
        all(b"\x1b[44m \x1b[100m \x1b[46m "),
        vec![Ok(0x48), Err(Error::MissingSecondColorCodeBlock)]
    );
}

#[test]
fn a_wrong_start_byte_is_handed_on() {
    assert_eq!(decoder(b"A").next(), Some(Err(Error::InvalidStartByte(0x41))));
}

#[test]
fn an_error_in_the_first_block_is_handed_on_and_no_second_block_is_read() {
    let mut decoder = decoder(b"\x1b[48m \x1b[44m \x1b[100m ");
    assert_eq!(decoder.next(), Some(Err(Error::ValueOutOfBounds(48))));
    assert_eq!(decoder.next(), Some(Ok(0x48)));
    assert_eq!(decoder.next(), None);
}

#[test]
fn an_error_in_the_second_block_is_handed_on() {
    let mut decoder = decoder(b"\x1b[44m \x1b[999m ");
    assert_eq!(decoder.next(), Some(Err(Error::InvalidCodeValue)));
    let mut decoder = self::decoder(b"\x1b[44m \x1b[m ");
    assert_eq!(decoder.next(), Some(Err(Error::NoCodeDigitsFound)));
    let mut decoder = self::decoder(b"\x1b[44m \x1b[");
    assert_eq!(decoder.next(), Some(Err(Error::ByteStreamTerminatedUnexpectedly)));
    let mut decoder = self::decoder(b"\x1b[44m \x1b[1000m ");
    assert_eq!(decoder.next(), Some(Err(Error::TooManyCodeDigits { at_least: 3, max: 3 })));
}

#[test]
fn the_number_zero_ends_the_bytes() {
    assert_eq!(all(b"\x1b[44m \x1b[100m \x1b[0m \x1b[44m \x1b[100m "), vec![Ok(0x48)]);
}

#[test]
fn the_number_zero_in_the_second_place_leaves_the_pair_incomplete() {
    let mut decoder = decoder(b"\x1b[44m \x1b[0m \x1b[44m \x1b[100m ");
    assert_eq!(decoder.next(), Some(Err(Error::MissingSecondColorCodeBlock)));
    assert_eq!(decoder.next(), Some(Ok(0x48)));
    assert_eq!(decoder.next(), None);
}

#[test]
fn decode_gives_the_decoder_of_the_bytes() {
    let mut decoder = b"\x1b[44m \x1b[100m ".to_vec().into_iter().decode();
    assert_eq!(decoder.next(), Some(Ok(b'H')));
    assert_eq!(decoder.next(), None);
}
