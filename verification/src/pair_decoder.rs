//! The decoder: it reads color codes two at a time and puts each pair
//! together into one byte.
use crate::code::{is_code_number, Code};
use crate::code_pair::{pair_byte, CodePair};
use crate::error::Error;
use crate::parser::Parser;
use crate::wire::{block, block_text, lemma_block_length, lemma_block_of_text};
use vstd::prelude::*;
use vstd::std_specs::convert::FromSpecImpl;
use vstd::std_specs::iter::{IteratorSpec, IteratorSpecImpl};

verus! {

/// What one call of the decoder makes of the bytes `input` that are still to
/// come, and how many of them it takes.
///
/// The decoder reads one block. Where that gives no code, it hands on what it
/// got and reads no further. Else it reads a second block: with a second code
/// the two are one byte, without one the pair is incomplete.
pub open spec fn pair(input: Seq<u8>) -> (Option<Result<u8, Error>>, nat) {
    match block(input) {
        (Some(Ok(high)), first) => match block(input.skip(first as int)) {
            (Some(Ok(low)), second) => (Some(Ok(pair_byte(high, low))), first + second),
            (Some(Err(error)), second) => (Some(Err(error)), first + second),
            (None, second) => (Some(Err(Error::MissingSecondColorCodeBlock)), first + second),
        },
        (Some(Err(error)), first) => (Some(Err(error)), first),
        (None, first) => (None, first),
    }
}

/// All that the decoder gives for the bytes `input` until it first gives
/// nothing: the bytes and errors of the pairs, in order.
pub open spec fn decoded(input: Seq<u8>) -> Seq<Result<u8, Error>>
    decreases input.len(),
    via decoded_decreases
{
    match pair(input) {
        (Some(item), taken) => seq![item] + decoded(input.skip(taken as int)),
        (None, _) => Seq::empty(),
    }
}

#[via_fn]
proof fn decoded_decreases(input: Seq<u8>) {
    lemma_pair_length(input);
}

/// The decoder takes no more bytes than there are, and at least one where it
/// gives anything.
pub proof fn lemma_pair_length(input: Seq<u8>)
    ensures
        pair(input).1 <= input.len(),
        pair(input).0 is Some ==> pair(input).1 >= 1,
{
    lemma_block_length(input);
    let first = block(input).1;
    lemma_block_length(input.skip(first as int));
}

/// The decoder reads back what two codes are written as: where the bytes to
/// come begin with the blocks of two color numbers, the decoder gives the
/// byte of the two codes and takes both blocks, whatever follows them.
pub proof fn lemma_pair_of_text(high: u8, low: u8, rest: Seq<u8>)
    requires
        is_code_number(high),
        is_code_number(low),
    ensures
        pair(block_text(high) + block_text(low) + rest) == (
            Some(Ok::<u8, Error>(pair_byte(Code::of(high), Code::of(low)))),
            block_text(high).len() + block_text(low).len(),
        ),
{
    let input = block_text(high) + block_text(low) + rest;
    assert(input =~= block_text(high) + (block_text(low) + rest));
    lemma_block_of_text(high, block_text(low) + rest);
    assert(input.skip(block_text(high).len() as int) =~= block_text(low) + rest);
    lemma_block_of_text(low, rest);
}

/// Two written codes are decoded as their byte, and the decoder goes on with
/// what follows them.
pub proof fn lemma_decoded_of_text(high: u8, low: u8, rest: Seq<u8>)
    requires
        is_code_number(high),
        is_code_number(low),
    ensures
        decoded(block_text(high) + block_text(low) + rest) == seq![
            Ok::<u8, Error>(pair_byte(Code::of(high), Code::of(low))),
        ] + decoded(rest),
{
    let input = block_text(high) + block_text(low) + rest;
    let taken = (block_text(high).len() + block_text(low).len()) as int;
    lemma_pair_of_text(high, low, rest);
    assert(input.skip(taken) =~= rest);
}

/// A single code is half a byte: where the bytes to come are the block of
/// one color number and nothing more, the decoder says that the second
/// block is missing.
pub proof fn lemma_pair_of_single(number: u8)
    requires
        is_code_number(number),
    ensures
        pair(block_text(number)) == (
            Some(Err::<u8, Error>(Error::MissingSecondColorCodeBlock)),
            block_text(number).len(),
        ),
        decoded(block_text(number)) == seq![Err::<u8, Error>(Error::MissingSecondColorCodeBlock)],
{
    let input = block_text(number);
    let empty = Seq::<u8>::empty();
    assert(input =~= input + empty);
    lemma_block_of_text(number, empty);
    assert(input.skip(input.len() as int) =~= empty);
    assert(decoded(empty) =~= Seq::<Result<u8, Error>>::empty());
    assert(decoded(input) =~= seq![Err::<u8, Error>(Error::MissingSecondColorCodeBlock)]);
}

/// Decodes color code pairs into bytes.
#[derive(Debug, Eq, PartialEq)]
pub struct PairDecoder<T> {
    codes: Parser<T>,
}

impl<T> PairDecoder<T> {
    /// The decoder that takes its codes from the parser `codes`.
    pub closed spec fn over(codes: Parser<T>) -> Self {
        PairDecoder { codes }
    }

    /// The stream of bytes that the decoder's parser reads from.
    pub closed spec fn source(self) -> T {
        self.codes.source()
    }

    /// The parser that the decoder takes its codes from.
    pub closed spec fn parser(self) -> Parser<T> {
        self.codes
    }
}

impl<T: Iterator<Item = u8>> Iterator for PairDecoder<T> {
    type Item = Result<u8, Error>;

    /// Decodes the next pair of codes. `None` says that the parser had no
    /// first code to give.
    fn next(&mut self) -> (item: Option<Self::Item>)
        ensures
            final(self).source().obeys_prophetic_iter_laws() == old(self).source().obeys_prophetic_iter_laws(),
            old(self).source().obeys_prophetic_iter_laws() ==> {
                &&& item == pair(old(self).source().remaining()).0
                &&& final(self).source().remaining() == old(self).source().remaining().skip(
                    pair(old(self).source().remaining()).1 as int,
                )
            },
    {
        let ghost input = self.codes.source().remaining();
        let ghost lawful = self.codes.source().obeys_prophetic_iter_laws();
        let ghost first = block(input).1 as int;
        assert(0 <= first <= input.len()) by {
            lemma_block_length(input);
        }
        assert(0 <= block(input.skip(first)).1 <= input.len() - first) by {
            lemma_block_length(input.skip(first));
        }
        assert(input.skip(first).skip(block(input.skip(first)).1 as int) =~= input.skip(
            first + block(input.skip(first)).1,
        ));
        match self.codes.next() {
            None => None,
            Some(Err(error)) => Some(Err(error)),
            Some(Ok(high)) => match self.codes.next() {
                None => Some(Err(Error::MissingSecondColorCodeBlock)),
                Some(Err(error)) => Some(Err(error)),
                Some(Ok(low)) => {
                    let pair = CodePair::from([high, low]);
                    proof {
                        CodePair::lemma_view_of(pair_byte(high, low));
                    }
                    Some(Ok(u8::from(pair)))
                },
            },
        }
    }
}

impl<T: Iterator<Item = u8>> IteratorSpecImpl for PairDecoder<T> {
    /// Nothing is claimed of the sequence as a whole: the contract of `next`
    /// says what every single call gives.
    open spec fn obeys_prophetic_iter_laws(&self) -> bool {
        false
    }

    open spec fn remaining(&self) -> Seq<Self::Item> {
        Seq::empty()
    }

    open spec fn will_return_none(&self) -> bool {
        false
    }

    open spec fn decrease(&self) -> Option<nat> {
        None
    }

    open spec fn initial_value_relation(&self, init: &Self) -> bool {
        true
    }

    open spec fn peek(&self, index: int) -> Option<Self::Item> {
        None
    }
}

impl<T> From<Parser<T>> for PairDecoder<T> {
    fn from(codes: Parser<T>) -> (decoder: Self)
        ensures
            decoder.parser() == codes,
            decoder.source() == codes.source(),
    {
        Self { codes }
    }
}

impl<T> FromSpecImpl<Parser<T>> for PairDecoder<T> {
    open spec fn obeys_from_spec() -> bool {
        true
    }

    open spec fn from_spec(codes: Parser<T>) -> Self {
        PairDecoder::over(codes)
    }
}

} // verus!
