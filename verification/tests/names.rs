use ansi_color_codec::{
    AnsiColorCode, AnsiColorCodePair, AnsiColorCodesToBytesIterator,
    BytesToAnsiColorCodesIterator, Code, Decoder, Encoder, Error,
};

#[test]
fn the_encoder_and_the_decoder_can_be_asked_for_by_their_own_traits() {
    let codes: Vec<Code> = Encoder::encode(vec![b'H'].into_iter()).collect();
    assert_eq!(codes, vec![Code::new(44), Code::new(100)]);
    let parsed: Vec<Result<Code, Error>> =
        Decoder::parse(b"\x1b[44m \x1b[100m ".to_vec().into_iter()).collect();
    assert_eq!(parsed, vec![Ok(Code::new(44)), Ok(Code::new(100))]);
    let decoded: Vec<Result<u8, Error>> =
        Decoder::decode(b"\x1b[44m \x1b[100m ".to_vec().into_iter()).collect();
    assert_eq!(decoded, vec![Ok(b'H')]);
}

#[test]
fn the_types_answer_to_their_full_names() {
    assert_eq!(AnsiColorCode::from_lower_nibble(8).to_nibble(), 8);
    assert_eq!(AnsiColorCode::from_upper_nibble(0x70).to_nibble(), 7);
    assert_eq!(u8::from(AnsiColorCodePair::from(7)), 7);
    let parser = BytesToAnsiColorCodesIterator::from(b"\x1b[47m \x1b[107m ".to_vec().into_iter());
    let mut decoder = AnsiColorCodesToBytesIterator::from(parser);
    assert_eq!(decoder.next(), Some(Ok(0x7f)));
    assert_eq!(decoder.next(), None);
}
