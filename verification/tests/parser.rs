use ansi_color_codec::parser::Parser;
use ansi_color_codec::{Code, Codec, Error};

fn parser(text: &[u8]) -> Parser<std::vec::IntoIter<u8>> {
    Parser::from(text.to_vec().into_iter())
}

fn all(text: &[u8]) -> Vec<Result<Code, Error>> {
    parser(text).collect()
}

#[test]
fn a_block_gives_its_code() {
    assert_eq!(all(b"\x1b[44m "), vec![Ok(Code::new(44))]);
    assert_eq!(all(b"\x1b[100m "), vec![Ok(Code::new(100))]);
    assert_eq!(all(b"\x1b[044m "), vec![Ok(Code::new(44))]);
}

#[test]
fn blocks_give_their_codes_in_order() {
    assert_eq!(
        all(b"\x1b[40m \x1b[47m \x1b[100m \x1b[107m "),
        vec![Ok(Code::new(40)), Ok(Code::new(47)), Ok(Code::new(100)), Ok(Code::new(107))]
    );
}

#[test]
fn no_bytes_give_no_codes() {
    assert_eq!(parser(b"").next(), None);
    assert_eq!(all(b""), vec![]);
}

#[test]
fn a_wrong_first_byte_is_an_invalid_start_byte() {
    assert_eq!(parser(b"A").next(), Some(Err(Error::InvalidStartByte(0x41))));
    assert_eq!(parser(b"[44m ").next(), Some(Err(Error::InvalidStartByte(b'['))));
}

#[test]
fn the_end_behind_the_escape_byte_is_unexpected() {
    assert_eq!(parser(b"\x1b").next(), Some(Err(Error::ByteStreamTerminatedUnexpectedly)));
}

#[test]
fn a_wrong_second_byte_is_an_invalid_number_prefix() {
    assert_eq!(parser(b"\x1b(44m ").next(), Some(Err(Error::InvalidNumberPrefix(b'('))));
    assert_eq!(parser(b"\x1b\x1b[44m ").next(), Some(Err(Error::InvalidNumberPrefix(0x1b))));
}

#[test]
fn the_end_among_the_digits_is_unexpected() {
    assert_eq!(parser(b"\x1b[").next(), Some(Err(Error::ByteStreamTerminatedUnexpectedly)));
    assert_eq!(parser(b"\x1b[4").next(), Some(Err(Error::ByteStreamTerminatedUnexpectedly)));
    assert_eq!(parser(b"\x1b[44").next(), Some(Err(Error::ByteStreamTerminatedUnexpectedly)));
    assert_eq!(parser(b"\x1b[100").next(), Some(Err(Error::ByteStreamTerminatedUnexpectedly)));
}

#[test]
fn a_number_without_digits_is_an_error() {
    assert_eq!(parser(b"\x1b[m ").next(), Some(Err(Error::NoCodeDigitsFound)));
}

#[test]
fn a_fourth_digit_is_one_too_many() {
    assert_eq!(
        parser(b"\x1b[1000m ").next(),
        Some(Err(Error::TooManyCodeDigits { at_least: 3, max: 3 }))
    );
    assert_eq!(
        parser(b"\x1b[0044m ").next(),
        Some(Err(Error::TooManyCodeDigits { at_least: 3, max: 3 }))
    );
}

#[test]
fn another_byte_among_the_digits_is_unexpected() {
    assert_eq!(parser(b"\x1b[4x4m ").next(), Some(Err(Error::UnexpectedByte(b'x'))));
    assert_eq!(parser(b"\x1b[;m ").next(), Some(Err(Error::UnexpectedByte(b';'))));
    assert_eq!(parser(b"\x1b[100 ").next(), Some(Err(Error::UnexpectedByte(b' '))));
}

#[test]
fn a_number_above_a_byte_is_an_invalid_code_value() {
    assert_eq!(parser(b"\x1b[999m ").next(), Some(Err(Error::InvalidCodeValue)));
    assert_eq!(parser(b"\x1b[256m ").next(), Some(Err(Error::InvalidCodeValue)));
    assert_eq!(parser(b"\x1b[300m ").next(), Some(Err(Error::InvalidCodeValue)));
}

#[test]
fn a_number_that_is_no_color_is_out_of_bounds() {
    assert_eq!(parser(b"\x1b[255m ").next(), Some(Err(Error::ValueOutOfBounds(255))));
    assert_eq!(parser(b"\x1b[48m ").next(), Some(Err(Error::ValueOutOfBounds(48))));
    assert_eq!(parser(b"\x1b[99m ").next(), Some(Err(Error::ValueOutOfBounds(99))));
    assert_eq!(parser(b"\x1b[108m ").next(), Some(Err(Error::ValueOutOfBounds(108))));
    assert_eq!(parser(b"\x1b[1m ").next(), Some(Err(Error::ValueOutOfBounds(1))));
}

#[test]
fn the_number_zero_ends_the_codes() {
    assert_eq!(parser(b"\x1b[0m ").next(), None);
    assert_eq!(parser(b"\x1b[000m ").next(), None);
    assert_eq!(all(b"\x1b[44m \x1b[0m \x1b[45m "), vec![Ok(Code::new(44))]);
}

#[test]
fn the_parser_reads_on_behind_the_number_zero() {
    let mut parser = parser(b"\x1b[44m \x1b[0m \x1b[45m ");
    assert_eq!(parser.next(), Some(Ok(Code::new(44))));
    assert_eq!(parser.next(), None);
    assert_eq!(parser.next(), Some(Ok(Code::new(45))));
    assert_eq!(parser.next(), None);
    assert_eq!(parser.next(), None);
}

#[test]
fn the_byte_behind_the_number_is_taken_whatever_it_is() {
    assert_eq!(
        all(b"\x1b[44mX\x1b[45m\x00\x1b[46m\x1b\x1b[47m "),
        vec![Ok(Code::new(44)), Ok(Code::new(45)), Ok(Code::new(46)), Ok(Code::new(47))]
    );
}

#[test]
fn the_byte_behind_the_number_may_be_missing_at_the_end() {
    assert_eq!(all(b"\x1b[44m"), vec![Ok(Code::new(44))]);
}

#[test]
fn after_an_error_the_parser_reads_on_behind_the_bytes_it_took() {
    // The start byte is taken, the block behind it is read next.
    let mut parser = parser(b"A\x1b[44m ");
    assert_eq!(parser.next(), Some(Err(Error::InvalidStartByte(b'A'))));
    assert_eq!(parser.next(), Some(Ok(Code::new(44))));
    assert_eq!(parser.next(), None);
}

#[test]
fn after_an_unexpected_byte_the_rest_of_the_block_is_read_as_a_new_block() {
    let mut parser = self::parser(b"\x1b[4x4m \x1b[44m ");
    assert_eq!(parser.next(), Some(Err(Error::UnexpectedByte(b'x'))));
    assert_eq!(parser.next(), Some(Err(Error::InvalidStartByte(b'4'))));
    assert_eq!(parser.next(), Some(Err(Error::InvalidStartByte(b'm'))));
    assert_eq!(parser.next(), Some(Err(Error::InvalidStartByte(b' '))));
    assert_eq!(parser.next(), Some(Ok(Code::new(44))));
    assert_eq!(parser.next(), None);
}

#[test]
fn after_an_invalid_code_value_the_fill_byte_is_still_to_come() {
    let mut parser = self::parser(b"\x1b[999m \x1b[44m ");
    assert_eq!(parser.next(), Some(Err(Error::InvalidCodeValue)));
    assert_eq!(parser.next(), Some(Err(Error::InvalidStartByte(b' '))));
    assert_eq!(parser.next(), Some(Ok(Code::new(44))));
}

#[test]
fn after_a_value_out_of_bounds_the_fill_byte_is_gone() {
    let mut parser = self::parser(b"\x1b[48m \x1b[44m ");
    assert_eq!(parser.next(), Some(Err(Error::ValueOutOfBounds(48))));
    assert_eq!(parser.next(), Some(Ok(Code::new(44))));
}

#[test]
fn after_too_many_digits_the_fourth_digit_is_gone() {
    let mut parser = self::parser(b"\x1b[1234m ");
    assert_eq!(parser.next(), Some(Err(Error::TooManyCodeDigits { at_least: 3, max: 3 })));
    assert_eq!(parser.next(), Some(Err(Error::InvalidStartByte(b'm'))));
}

#[test]
fn parse_gives_the_parser_of_the_bytes() {
    let mut parser = b"\x1b[104m ".to_vec().into_iter().parse();
    assert_eq!(parser.next(), Some(Ok(Code::new(104))));
    assert_eq!(parser.next(), None);
}
