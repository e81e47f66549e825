//! The decoding side of the codec: from bytes to a parser, and to a decoder.
use crate::pair_decoder::PairDecoder;
use crate::parser::Parser;
use vstd::prelude::*;

verus! {

/// Gives the ability to decode bytes from ANSI background colors.
pub trait Decoder: Sized {
    /// A type to parse color codes.
    type Parser;

    /// A type to decode color codes.
    type Decoder;

    /// Whether `parser` is the parser that `parse` makes of `self`.
    spec fn parsed_by(self, parser: Self::Parser) -> bool;

    /// Whether `decoder` is the decoder that `decode` makes of `self`.
    spec fn decoded_by(self, decoder: Self::Decoder) -> bool;

    /// Parse bytes into color codes.
    fn parse(self) -> (parser: Self::Parser)
        ensures
            self.parsed_by(parser),
    ;

    /// Decode color codes to bytes.
    fn decode(self) -> (decoder: Self::Decoder)
        ensures
            self.decoded_by(decoder),
    ;
}

impl<T: Iterator<Item = u8>> Decoder for T {
    type Parser = Parser<T>;

    type Decoder = PairDecoder<T>;

    open spec fn parsed_by(self, parser: Parser<T>) -> bool {
        parser.source() == self
    }

    open spec fn decoded_by(self, decoder: PairDecoder<T>) -> bool {
        decoder.source() == self
    }

    /// Parse ANSI color codes from a stream of bytes.
    fn parse(self) -> (parser: Parser<T>) {
        Parser::from(self)
    }

    /// Return a decoder that reads the bytes of `self` as a sequence of ANSI
    /// background colors and gives the bytes that they stand for.
    fn decode(self) -> (decoder: PairDecoder<T>) {
        PairDecoder::from(Parser::from(self))
    }
}

} // verus!
