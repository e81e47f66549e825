use ansi_color_codec::code_pair::CodePair;
use ansi_color_codec::Code;

#[test]
fn a_byte_splits_into_the_upper_and_the_lower_code() {
    let codes = CodePair::from(0x48).codes();
    assert_eq!(codes, [Code::new(44), Code::new(100)]);
    let codes = CodePair::from(0x00).codes();
    assert_eq!(codes, [Code::new(40), Code::new(40)]);
    let codes = CodePair::from(0xff).codes();
    assert_eq!(codes, [Code::new(107), Code::new(107)]);
    let codes = CodePair::from(0x7f).codes();
    assert_eq!(codes, [Code::new(47), Code::new(107)]);
}

#[test]
fn two_codes_make_a_byte_upper_nibble_first() {
    assert_eq!(u8::from(CodePair::from([Code::new(44), Code::new(100)])), 0x48);
    assert_eq!(u8::from(CodePair::from([Code::new(100), Code::new(44)])), 0x84);
    assert_eq!(u8::from(CodePair::from([Code::new(40), Code::new(41)])), 0x01);
    assert_eq!(u8::from(CodePair::from([Code::new(41), Code::new(40)])), 0x10);
}

#[test]
fn every_byte_comes_back_from_its_pair() {
    for byte in 0..=255u8 {
        let pair = CodePair::from(byte);
        assert_eq!(u8::from(pair), byte);
        assert_eq!(u8::from(CodePair::from(pair.codes())), byte);
    }
}

#[test]
fn pairs_compare_by_their_byte() {
    assert_eq!(CodePair::from(0x48), CodePair::from([Code::new(44), Code::new(100)]));
    assert_ne!(CodePair::from(0x48), CodePair::from(0x84));
}

#[test]
fn a_pair_gives_its_codes_one_by_one() {
    let codes: Vec<Code> = CodePair::from(b'H').into_iter().collect();
    assert_eq!(codes, vec![Code::new(44), Code::new(100)]);
}
