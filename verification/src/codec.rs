//! The codec: encoding and decoding under one name.
use crate::code::Code;
use crate::code_pair::{high_code, lemma_pair_round_trip, low_code};
pub use crate::decoder::Decoder;
use crate::encoder::encoded;
pub use crate::encoder::Encoder;
use crate::encoder::PairEncoder;
use crate::error::Error;
use crate::pair_decoder::{decoded, lemma_decoded_of_text, pair, PairDecoder};
use crate::parser::Parser;
use vstd::prelude::*;

verus! {

/// The bytes that the codes `codes` are written as, block after block.
pub open spec fn written(codes: Seq<Code>) -> Seq<u8>
    decreases codes.len(),
{
    if codes.len() == 0 {
        Seq::empty()
    } else {
        codes[0].text() + written(codes.drop_first())
    }
}

/// The bytes `bytes`, each as the result of a pair that was decoded well.
pub open spec fn all_ok(bytes: Seq<u8>) -> Seq<Result<u8, Error>> {
    Seq::new(bytes.len(), |i: int| Ok(bytes[i]))
}

/// What the codes of a sequence of bytes are written as: the two blocks of
/// the first byte, then the blocks of the others.
proof fn lemma_written_encoded(bytes: Seq<u8>)
    requires
        bytes.len() > 0,
    ensures
        written(encoded(bytes)) == high_code(bytes[0]).text() + low_code(bytes[0]).text() + written(
            encoded(bytes.drop_first()),
        ),
{
    let codes = encoded(bytes);
    let tail = encoded(bytes.drop_first());
    assert(codes.drop_first() =~= seq![low_code(bytes[0])] + tail);
    assert(codes.drop_first().drop_first() =~= tail);
    assert(written(codes) == codes[0].text() + written(codes.drop_first()));
    assert(written(codes.drop_first()) == codes.drop_first()[0].text() + written(
        codes.drop_first().drop_first(),
    ));
    assert(high_code(bytes[0]).text() + (low_code(bytes[0]).text() + written(tail))
        =~= high_code(bytes[0]).text() + low_code(bytes[0]).text() + written(tail));
}

/// Decoding what was encoded gives the bytes back: for every sequence of
/// bytes, the decoder reads from the written codes of those bytes each of
/// them, in order, and no error.
pub proof fn lemma_round_trip(bytes: Seq<u8>)
    ensures
        decoded(written(encoded(bytes))) == all_ok(bytes),
    decreases bytes.len(),
{
    if bytes.len() == 0 {
        lemma_empty();
        assert(all_ok(bytes) =~= Seq::<Result<u8, Error>>::empty());
    } else {
        let byte = bytes[0];
        let tail = bytes.drop_first();
        lemma_round_trip(tail);
        lemma_written_encoded(bytes);
        lemma_pair_round_trip(byte);
        Code::lemma_of_view(high_code(byte));
        Code::lemma_of_view(low_code(byte));
        lemma_decoded_of_text(high_code(byte)@, low_code(byte)@, written(encoded(tail)));
        assert(seq![Ok::<u8, Error>(byte)] + all_ok(tail) =~= all_ok(bytes));
    }
}

/// Nothing comes of nothing: no bytes are encoded as no codes, and no text is
/// decoded as no bytes and no error.
pub proof fn lemma_empty()
    ensures
        encoded(Seq::<u8>::empty()) == Seq::<Code>::empty(),
        written(Seq::<Code>::empty()) == Seq::<u8>::empty(),
        pair(Seq::<u8>::empty()) == (None::<Result<u8, Error>>, 0nat),
        decoded(Seq::<u8>::empty()) == Seq::<Result<u8, Error>>::empty(),
{
}

/// Gives the ability to en- / decode bytes to / from ANSI background colors.
pub trait Codec: Iterator<Item = u8> + Sized {
    /// Encode bytes into ANSI colors.
    fn encode(self) -> (encoder: PairEncoder<Self>)
        ensures
            encoder.source() == self,
            encoder.pending() is None,
    ;

    /// Parse bytes into ANSI color codes.
    fn parse(self) -> (parser: Parser<Self>)
        ensures
            parser.source() == self,
    ;

    /// Decode ANSI color codes into bytes.
    fn decode(self) -> (decoder: PairDecoder<Self>)
        ensures
            decoder.source() == self,
    ;
}

impl<T: Iterator<Item = u8>> Codec for T {
    fn encode(self) -> (encoder: PairEncoder<Self>) {
        <Self as Encoder>::encode(self)
    }

    fn parse(self) -> (parser: Parser<Self>) {
        <Self as Decoder>::parse(self)
    }

    fn decode(self) -> (decoder: PairDecoder<Self>) {
        <Self as Decoder>::decode(self)
    }
}

} // verus!
