//! Bits as bytes: every eight bits make one byte, the least significant bit
//! first.
use crate::bits::{gather, gathered, BYTE_BITS};
use vstd::prelude::*;
use vstd::std_specs::convert::FromSpecImpl;
use vstd::std_specs::iter::{IteratorSpec, IteratorSpecImpl};

verus! {

/// Makes bytes of the bits of a stream, one byte for each call of
/// [`BitsToBytesIterator::next`].
#[derive(Debug, Eq, PartialEq)]
pub struct BitsToBytesIterator<T> {
    bits: T,
}

impl<T> BitsToBytesIterator<T> {
    /// The maker of bytes that reads from the stream `bits`.
    pub closed spec fn over(bits: T) -> Self {
        BitsToBytesIterator { bits }
    }

    /// The stream of bits that the bytes are made of.
    pub closed spec fn source(self) -> T {
        self.bits
    }
}

impl<T: Iterator<Item = bool>> Iterator for BitsToBytesIterator<T> {
    type Item = u8;

    /// Makes the next byte of the next eight bits. Where fewer bits are left,
    /// it makes the byte of those. `None` says that the bits have run out and
    /// that the bits that were left, if any, were all zero.
    fn next(&mut self) -> (item: Option<Self::Item>)
        ensures
            final(self).source().obeys_prophetic_iter_laws() == old(self).source().obeys_prophetic_iter_laws(),
            old(self).source().obeys_prophetic_iter_laws() ==> {
                &&& item == gathered(old(self).source().remaining(), 8).0
                &&& final(self).source().remaining() == old(self).source().remaining().skip(
                    gathered(old(self).source().remaining(), 8).1 as int,
                )
            },
    {
        gather(&mut self.bits, BYTE_BITS)
    }
}

impl<T: Iterator<Item = bool>> IteratorSpecImpl for BitsToBytesIterator<T> {
    /// Nothing is claimed of the sequence as a whole: the contract of `next`
    /// says what every single call gives.
    open spec fn obeys_prophetic_iter_laws(&self) -> bool {
        false
    }

    open spec fn remaining(&self) -> Seq<Self::Item> {
        Seq::empty()
    }

    open spec fn will_return_none(&self) -> bool {
        false
    }

    open spec fn decrease(&self) -> Option<nat> {
        None
    }

    open spec fn initial_value_relation(&self, init: &Self) -> bool {
        true
    }

    open spec fn peek(&self, index: int) -> Option<Self::Item> {
        None
    }
}

impl<T> From<T> for BitsToBytesIterator<T> {
    fn from(bits: T) -> (bytes: Self)
        ensures
            bytes.source() == bits,
    {
        Self { bits }
    }
}

impl<T> FromSpecImpl<T> for BitsToBytesIterator<T> {
    open spec fn obeys_from_spec() -> bool {
        true
    }

    open spec fn from_spec(bits: T) -> Self {
        BitsToBytesIterator::over(bits)
    }
}

/// Gives the ability to read a stream of bits byte by byte.
pub trait BitsToBytes: Iterator<Item = bool> + Sized {
    /// The bytes that the bits make, eight bits for each.
    fn bytes(self) -> (bytes: BitsToBytesIterator<Self>)
        ensures
            bytes.source() == self,
    ;
}

impl<T: Iterator<Item = bool>> BitsToBytes for T {
    fn bytes(self) -> (bytes: BitsToBytesIterator<Self>) {
        BitsToBytesIterator::from(self)
    }
}

} // verus!
