use ansi_color_codec::Error;

#[test]
fn errors_without_a_value_say_what_happened() {
    assert_eq!(
        Error::ByteStreamTerminatedUnexpectedly.to_string(),
        "byte stream terminated unexpectedly"
    );
    assert_eq!(Error::InvalidCodeValue.to_string(), "invalid code value");
    assert_eq!(Error::MissingSecondColorCodeBlock.to_string(), "missing second code block");
    assert_eq!(Error::NoCodeDigitsFound.to_string(), "no code digits found");
}

#[test]
fn numbers_are_given_in_decimal() {
    assert_eq!(Error::InvalidNumberPrefix(40).to_string(), "invalid number prefix: 40");
    assert_eq!(Error::InvalidNumberPrefix(0).to_string(), "invalid number prefix: 0");
    assert_eq!(Error::ValueOutOfBounds(255).to_string(), "value out of bounds: 255");
    assert_eq!(Error::ValueOutOfBounds(48).to_string(), "value out of bounds: 48");
    assert_eq!(Error::ValueOutOfBounds(7).to_string(), "value out of bounds: 7");
    assert_eq!(
        Error::TooManyCodeDigits { at_least: 3, max: 3 }.to_string(),
        "too many code digits found: 3+ / 3"
    );
    assert_eq!(
        Error::TooManyCodeDigits { at_least: 12, max: 100 }.to_string(),
        "too many code digits found: 12+ / 100"
    );
}

#[test]
fn bytes_are_given_in_hexadecimal() {
    assert_eq!(Error::InvalidStartByte(0x41).to_string(), "invalid start byte: 41");
    assert_eq!(Error::InvalidStartByte(0x1b).to_string(), "invalid start byte: 1B");
    assert_eq!(Error::InvalidStartByte(0x0a).to_string(), "invalid start byte: A");
    assert_eq!(Error::InvalidStartByte(0).to_string(), "invalid start byte: 0");
    assert_eq!(Error::UnexpectedByte(0xff).to_string(), "unexpected byte: FF");
    assert_eq!(Error::UnexpectedByte(0x78).to_string(), "unexpected byte: 78");
}

#[test]
fn the_texts_are_those_of_the_standard_formatter() {
    for byte in 0..=255u8 {
        assert_eq!(Error::InvalidNumberPrefix(byte).to_string(), format!("invalid number prefix: {byte}"));
        assert_eq!(Error::InvalidStartByte(byte).to_string(), format!("invalid start byte: {byte:X?}"));
        assert_eq!(Error::UnexpectedByte(byte).to_string(), format!("unexpected byte: {byte:X?}"));
        assert_eq!(Error::ValueOutOfBounds(byte).to_string(), format!("value out of bounds: {byte}"));
    }
}

#[test]
fn errors_compare_by_kind_and_value() {
    assert_eq!(Error::InvalidStartByte(1), Error::InvalidStartByte(1));
    assert_ne!(Error::InvalidStartByte(1), Error::InvalidStartByte(2));
    assert_ne!(Error::InvalidStartByte(1), Error::UnexpectedByte(1));
    let error = Error::TooManyCodeDigits { at_least: 3, max: 3 };
    assert_eq!(error.clone(), error);
}
