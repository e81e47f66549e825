//! The encoder: it turns each byte of a stream into two color codes.
use crate::code::Code;
use crate::code_pair::{high_code, low_code, CodePair};
use crate::error::Error;
use vstd::prelude::*;
use vstd::std_specs::convert::FromSpecImpl;
use vstd::std_specs::iter::{IteratorSpec, IteratorSpecImpl};

verus! {

/// The codes that the bytes `bytes` are encoded as: for each byte the code
/// of its upper nibble, then the code of its lower nibble.
pub open spec fn encoded(bytes: Seq<u8>) -> Seq<Code>
    decreases bytes.len(),
{
    if bytes.len() == 0 {
        Seq::empty()
    } else {
        seq![high_code(bytes[0]), low_code(bytes[0])] + encoded(bytes.drop_first())
    }
}

/// The codes that an encoder still gives when it holds `pending` back and the
/// bytes `bytes` are still to come.
pub open spec fn to_come(pending: Option<Code>, bytes: Seq<u8>) -> Seq<Code> {
    match pending {
        Some(low) => seq![low] + encoded(bytes),
        None => encoded(bytes),
    }
}

/// Every byte is encoded as two codes: the codes of byte `index` stand at the
/// places `2 * index` and `2 * index + 1`.
pub proof fn lemma_encoded_places(bytes: Seq<u8>, index: int)
    requires
        0 <= index < bytes.len(),
    ensures
        encoded(bytes).len() == 2 * bytes.len(),
        encoded(bytes)[2 * index] == high_code(bytes[index]),
        encoded(bytes)[2 * index + 1] == low_code(bytes[index]),
    decreases bytes.len(),
{
    lemma_encoded_length(bytes);
    if index > 0 {
        let tail = bytes.drop_first();
        lemma_encoded_places(tail, index - 1);
        assert(encoded(bytes)[2 * index] == encoded(tail)[2 * (index - 1)]);
        assert(encoded(bytes)[2 * index + 1] == encoded(tail)[2 * (index - 1) + 1]);
    }
}

/// There are twice as many codes as bytes.
pub proof fn lemma_encoded_length(bytes: Seq<u8>)
    ensures
        encoded(bytes).len() == 2 * bytes.len(),
    decreases bytes.len(),
{
    if bytes.len() > 0 {
        lemma_encoded_length(bytes.drop_first());
    }
}

/// Gives the ability to encode bytes to ANSI background colors.
pub trait Encoder: Sized {
    /// Type to encode bytes into ANSI color codes.
    type Encoder;

    /// Error type.
    type Error;

    /// Whether `encoder` is the encoder that `encode` makes of `self`.
    spec fn encoded_by(self, encoder: Self::Encoder) -> bool;

    /// Encode bytes into ANSI colors.
    fn encode(self) -> (encoder: Self::Encoder)
        ensures
            self.encoded_by(encoder),
    ;
}

/// Encodes the bytes of a stream as pairs of color codes, one code for each
/// call of [`PairEncoder::next`].
#[derive(Debug)]
pub struct PairEncoder<T> {
    bytes: T,
    low: Option<Code>,
}

impl<T> PairEncoder<T> {
    /// The encoder that reads from the stream `bytes` and holds no code back.
    pub closed spec fn over(bytes: T) -> Self {
        PairEncoder { bytes, low: None }
    }

    /// The stream of bytes that the encoder reads from.
    pub closed spec fn source(self) -> T {
        self.bytes
    }

    /// The code that the encoder holds back: the second code of a byte whose
    /// first code it has given.
    pub closed spec fn pending(self) -> Option<Code> {
        self.low
    }
}

impl<T: Iterator<Item = u8>> Iterator for PairEncoder<T> {
    type Item = Code;

    /// Gives the next code: the code that was held back, or else the first
    /// code of the next byte. `None` says that the bytes have ended.
    fn next(&mut self) -> (item: Option<Self::Item>)
        ensures
            final(self).source().obeys_prophetic_iter_laws() == old(self).source().obeys_prophetic_iter_laws(),
            old(self).pending() matches Some(low) ==> {
                &&& item == Some(low)
                &&& final(self).pending() is None
                &&& final(self).source() == old(self).source()
            },
            old(self).pending() is None && old(self).source().obeys_prophetic_iter_laws() ==> {
                let bytes = old(self).source().remaining();
                if bytes.len() > 0 {
                    &&& item == Some(high_code(bytes[0]))
                    &&& final(self).pending() == Some(low_code(bytes[0]))
                    &&& final(self).source().remaining() == bytes.drop_first()
                } else {
                    &&& item is None
                    &&& final(self).pending() is None
                    &&& final(self).source().remaining() == bytes
                }
            },
            old(self).source().obeys_prophetic_iter_laws() ==> to_come(
                old(self).pending(),
                old(self).source().remaining(),
            ) == match item {
                Some(code) => seq![code] + to_come(
                    final(self).pending(),
                    final(self).source().remaining(),
                ),
                None => Seq::empty(),
            },
    {
        if let Some(low) = self.low.take() {
            return Some(low);
        }
        match self.bytes.next() {
            None => None,
            Some(byte) => {
                let codes = CodePair::from(byte).codes();
                proof {
                    CodePair::lemma_view_of(byte);
                }
                self.low = Some(codes[1]);
                Some(codes[0])
            },
        }
    }
}

impl<T: Iterator<Item = u8>> IteratorSpecImpl for PairEncoder<T> {
    /// Nothing is claimed of the sequence as a whole: the contract of `next`
    /// says what every single call gives.
    open spec fn obeys_prophetic_iter_laws(&self) -> bool {
        false
    }

    open spec fn remaining(&self) -> Seq<Self::Item> {
        Seq::empty()
    }

    open spec fn will_return_none(&self) -> bool {
        false
    }

    open spec fn decrease(&self) -> Option<nat> {
        None
    }

    open spec fn initial_value_relation(&self, init: &Self) -> bool {
        true
    }

    open spec fn peek(&self, index: int) -> Option<Self::Item> {
        None
    }
}

impl<T> From<T> for PairEncoder<T> {
    fn from(bytes: T) -> (encoder: Self)
        ensures
            encoder.source() == bytes,
            encoder.pending() is None,
    {
        Self { bytes, low: None }
    }
}

impl<T> FromSpecImpl<T> for PairEncoder<T> {
    open spec fn obeys_from_spec() -> bool {
        true
    }

    open spec fn from_spec(bytes: T) -> Self {
        PairEncoder::over(bytes)
    }
}

impl<T: Iterator<Item = u8>> Encoder for T {
    type Encoder = PairEncoder<T>;

    type Error = Error;

    open spec fn encoded_by(self, encoder: PairEncoder<T>) -> bool {
        encoder.source() == self && encoder.pending() is None
    }

    /// Return an encoder that gives the bytes of `self` as ANSI background
    /// colors.
    fn encode(self) -> (encoder: PairEncoder<T>) {
        PairEncoder::from(self)
    }
}

} // verus!
