//! Bits as triplets: every three bits make one number below eight, which
//! selects one of the eight colors of the low set.
use crate::ascii::{chars, to_text};
use crate::bits::{gather, gathered};
use crate::code::COLOR_OFFSET_LOW;
use crate::wire::{block_bytes, block_text};
use vstd::prelude::*;
use vstd::std_specs::convert::FromSpecImpl;
use vstd::std_specs::iter::{IteratorSpec, IteratorSpecImpl};

verus! {

/// Three bits as a number, the least significant bit first.
pub type Triplet = u8;

/// The number of bits of a triplet.
pub const TRIPLET_BITS: u8 = 3;

/// Makes triplets of the bits of a stream, one triplet for each call of
/// [`TripletIterator::next`].
#[derive(Debug, Eq, PartialEq)]
pub struct TripletIterator<T> {
    bits: T,
}

impl<T> TripletIterator<T> {
    /// The maker of triplets that reads from the stream `bits`.
    pub closed spec fn over(bits: T) -> Self {
        TripletIterator { bits }
    }

    /// The stream of bits that the triplets are made of.
    pub closed spec fn source(self) -> T {
        self.bits
    }
}

impl<T: Iterator<Item = bool>> Iterator for TripletIterator<T> {
    type Item = Triplet;

    /// Makes the next triplet of the next three bits. Where fewer bits are
    /// left, it makes the triplet of those. `None` says that the bits have
    /// run out and that the bits that were left, if any, were all zero.
    fn next(&mut self) -> (item: Option<Self::Item>)
        ensures
            final(self).source().obeys_prophetic_iter_laws() == old(self).source().obeys_prophetic_iter_laws(),
            old(self).source().obeys_prophetic_iter_laws() ==> {
                &&& item == gathered(old(self).source().remaining(), 3).0
                &&& final(self).source().remaining() == old(self).source().remaining().skip(
                    gathered(old(self).source().remaining(), 3).1 as int,
                )
            },
    {
        gather(&mut self.bits, TRIPLET_BITS)
    }
}

impl<T: Iterator<Item = bool>> IteratorSpecImpl for TripletIterator<T> {
    /// Nothing is claimed of the sequence as a whole: the contract of `next`
    /// says what every single call gives.
    open spec fn obeys_prophetic_iter_laws(&self) -> bool {
        false
    }

    open spec fn remaining(&self) -> Seq<Self::Item> {
        Seq::empty()
    }

    open spec fn will_return_none(&self) -> bool {
        false
    }

    open spec fn decrease(&self) -> Option<nat> {
        None
    }

    open spec fn initial_value_relation(&self, init: &Self) -> bool {
        true
    }

    open spec fn peek(&self, index: int) -> Option<Self::Item> {
        None
    }
}

impl<T> From<T> for TripletIterator<T> {
    fn from(bits: T) -> (triplets: Self)
        ensures
            triplets.source() == bits,
    {
        Self { bits }
    }
}

impl<T> FromSpecImpl<T> for TripletIterator<T> {
    open spec fn obeys_from_spec() -> bool {
        true
    }

    open spec fn from_spec(bits: T) -> Self {
        TripletIterator::over(bits)
    }
}

/// Gives the ability to read a stream of bits triplet by triplet.
pub trait Triplets: Iterator<Item = bool> + Sized {
    /// The triplets that the bits make, three bits for each.
    fn triplets(self) -> (triplets: TripletIterator<Self>)
        ensures
            triplets.source() == self,
    ;
}

impl<T: Iterator<Item = bool>> Triplets for T {
    fn triplets(self) -> (triplets: TripletIterator<Self>) {
        TripletIterator::from(self)
    }
}

/// Gives the ability to write a value as the block of a background color.
pub trait ToColor: Sized {
    /// The number of the color that stands for the value.
    spec fn color_number(self) -> int;

    /// The block of the color that stands for the value, as text.
    fn to_color(self) -> (text: String)
        requires
            self.color_number() <= u8::MAX,
        ensures
            text@ == chars(block_text(self.color_number() as u8)),
    ;
}

impl ToColor for Triplet {
    /// A triplet counts the colors from the first color of the low set.
    open spec fn color_number(self) -> int {
        self + 40
    }

    fn to_color(self) -> (text: String) {
        let bytes = block_bytes(self + COLOR_OFFSET_LOW);
        to_text(&bytes)
    }
}

} // verus!
