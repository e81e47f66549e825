//! Encode arbitrary byte streams as ANSI background colors, and decode them
//! again.
//!
//! Every byte is written as two color code blocks, the block of its upper
//! nibble first. A block is the escape byte, `[`, the decimal number of one of
//! sixteen background colors, `m`, and a space that the terminal paints. The
//! nibbles 0 to 7 are the colors 40 to 47, the nibbles 8 to 15 are the colors
//! 100 to 107.
//!
//! [`Codec`] gives every iterator over bytes the methods `encode`, `parse` and
//! `decode`. Each of them returns an iterator that works on demand: it reads
//! from its source only what it needs for the next item.
//!
//! # What is proved
//!
//! The contract of each `next` says what the call gives and which bytes it
//! takes, as a function of the bytes that the source still has to give. It
//! holds for every source that obeys the laws of iterators that `vstd` states,
//! as the iterators of vectors and slices do. [`codec::lemma_round_trip`]
//! states that decoding undoes encoding.
use vstd::prelude::*;

pub mod ascii;
pub mod bits;
pub mod bytes;
pub mod code;
pub mod code_pair;
pub mod codec;
pub mod codes;
pub mod constants;
pub mod decoder;
pub mod digits;
pub mod encoder;
pub mod error;
pub mod pair_decoder;
pub mod parser;
pub mod triplets;
pub mod wire;

pub use self::code::Code;
pub use self::codec::Codec;
pub use self::constants::RESET;
pub use self::decoder::Decoder;
pub use self::encoder::Encoder;
pub use self::error::Error;

verus! {

/// The full name of [`Code`].
pub type AnsiColorCode = Code;

/// The full name of [`code_pair::CodePair`].
pub type AnsiColorCodePair = code_pair::CodePair;

/// The full name of [`parser::Parser`]: it makes color codes of bytes.
pub type BytesToAnsiColorCodesIterator<T> = parser::Parser<T>;

/// The full name of [`pair_decoder::PairDecoder`]: it makes bytes of color
/// codes.
pub type AnsiColorCodesToBytesIterator<T> = pair_decoder::PairDecoder<T>;

} // verus!
