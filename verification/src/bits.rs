//! Bytes as bits: each byte gives its eight bits, the least significant
//! first.
use vstd::prelude::*;
use vstd::std_specs::convert::FromSpecImpl;
use vstd::std_specs::iter::{IteratorSpec, IteratorSpecImpl};

verus! {

/// The number of bits of a byte.
pub const BYTE_BITS: u8 = 8;

/// Bit `index` of `byte`, counted from the least significant.
pub open spec fn bit(byte: u8, index: u8) -> bool
    recommends
        index < 8,
{
    byte & (1u8 << index) != 0
}

/// The eight bits of `byte`, the least significant first.
pub open spec fn bits_of(byte: u8) -> Seq<bool> {
    Seq::new(8, |index: int| bit(byte, index as u8))
}

/// What bit `index` counts for: two to the power of `index`.
pub open spec fn weight(index: nat) -> nat
    decreases index,
{
    if index == 0 {
        1
    } else {
        2 * weight((index - 1) as nat)
    }
}

/// The number that the bits `bits` make, the least significant first.
pub open spec fn number(bits: Seq<bool>) -> nat
    decreases bits.len(),
{
    if bits.len() == 0 {
        0
    } else if bits.last() {
        number(bits.drop_last()) + weight((bits.len() - 1) as nat)
    } else {
        number(bits.drop_last())
    }
}

/// What a call that gathers `width` bits makes of the bits `bits` that are
/// still to come, and how many of them it takes: it takes `width` bits, or
/// all where there are fewer, and gives the number that they make. Only
/// where the bits ran out and the number is 0, it gives nothing.
pub open spec fn gathered(bits: Seq<bool>, width: nat) -> (Option<u8>, nat) {
    let taken = if bits.len() < width {
        bits.len()
    } else {
        width
    };
    let value = number(bits.take(taken as int));
    if value == 0 && bits.len() < width {
        (None, taken)
    } else {
        (Some(value as u8), taken)
    }
}

/// One more bit adds what it counts for, if it is set.
proof fn lemma_number_push(bits: Seq<bool>, bit: bool)
    ensures
        number(bits.push(bit)) == number(bits) + if bit {
            weight(bits.len())
        } else {
            0
        },
{
    assert(bits.push(bit).drop_last() =~= bits);
}

/// The eight bits of a byte make that byte.
pub proof fn lemma_number_of_bits(byte: u8)
    ensures
        number(bits_of(byte)) == byte,
{
    let bits = bits_of(byte);
    let none = Seq::<bool>::empty();
    let b0 = none.push(bits[0]);
    let b1 = b0.push(bits[1]);
    let b2 = b1.push(bits[2]);
    let b3 = b2.push(bits[3]);
    let b4 = b3.push(bits[4]);
    let b5 = b4.push(bits[5]);
    let b6 = b5.push(bits[6]);
    let b7 = b6.push(bits[7]);
    assert(b7 =~= bits);
    lemma_number_push(none, bits[0]);
    lemma_number_push(b0, bits[1]);
    lemma_number_push(b1, bits[2]);
    lemma_number_push(b2, bits[3]);
    lemma_number_push(b3, bits[4]);
    lemma_number_push(b4, bits[5]);
    lemma_number_push(b5, bits[6]);
    lemma_number_push(b6, bits[7]);
    reveal_with_fuel(weight, 9);
    assert(byte == (if byte & (1u8 << 0u8) != 0 {
        1int
    } else {
        0int
    }) + (if byte & (1u8 << 1u8) != 0 {
        2int
    } else {
        0int
    }) + (if byte & (1u8 << 2u8) != 0 {
        4int
    } else {
        0int
    }) + (if byte & (1u8 << 3u8) != 0 {
        8int
    } else {
        0int
    }) + (if byte & (1u8 << 4u8) != 0 {
        16int
    } else {
        0int
    }) + (if byte & (1u8 << 5u8) != 0 {
        32int
    } else {
        0int
    }) + (if byte & (1u8 << 6u8) != 0 {
        64int
    } else {
        0int
    }) + (if byte & (1u8 << 7u8) != 0 {
        128int
    } else {
        0int
    })) by (bit_vector);
}

/// Bits come back as the byte that they were taken from: where the bits to
/// come begin with the eight bits of a byte, gathering eight bits gives that
/// byte and takes those bits, whatever follows them.
pub proof fn lemma_gathered_of_bits(byte: u8, rest: Seq<bool>)
    ensures
        gathered(bits_of(byte) + rest, 8) == (Some(byte), 8nat),
{
    lemma_number_of_bits(byte);
    assert((bits_of(byte) + rest).take(8) =~= bits_of(byte));
}

/// Takes up to `width` bits from `bits` and makes a number of them.
pub fn gather<T: Iterator<Item = bool>>(bits: &mut T, width: u8) -> (item: Option<u8>)
    requires
        width <= 8,
    ensures
        (*final(bits)).obeys_prophetic_iter_laws() == (*old(bits)).obeys_prophetic_iter_laws(),
        (*old(bits)).obeys_prophetic_iter_laws() ==> {
            &&& item == gathered((*old(bits)).remaining(), width as nat).0
            &&& (*final(bits)).remaining() == (*old(bits)).remaining().skip(
                gathered((*old(bits)).remaining(), width as nat).1 as int,
            )
        },
{
    let ghost all = (*bits).remaining();
    let ghost lawful = (*bits).obeys_prophetic_iter_laws();
    let mut value: u8 = 0;
    let mut exhausted = false;
    let mut index: u8 = 0;
    assert(all.skip(0) =~= all);
    assert(all.take(0) =~= Seq::<bool>::empty());
    while index < width
        invariant_except_break
            !exhausted,
        invariant
            index <= width <= 8,
            value < weight(index as nat),
            lawful == (*old(bits)).obeys_prophetic_iter_laws(),
            all == (*old(bits)).remaining(),
            (*bits).obeys_prophetic_iter_laws() == lawful,
            lawful ==> {
                &&& index <= all.len()
                &&& (*bits).remaining() == all.skip(index as int)
                &&& value == number(all.take(index as int))
            },
        ensures
            lawful && exhausted ==> index == all.len() && index < width,
            lawful && !exhausted ==> index == width,
        decreases width - index,
    {
        match bits.next() {
            Some(bit) => {
                assert(lawful ==> all.skip(index as int).drop_first() =~= all.skip(index + 1));
                assert(lawful ==> all.take(index + 1).drop_last() =~= all.take(index as int));
                assert(lawful ==> all.take(index + 1).last() == bit);
                assert((1u8 << index) == weight(index as nat) && weight(index as nat) <= 128) by {
                    lemma_shift_weight(index);
                }
                assert(weight((index + 1) as nat) == 2 * weight(index as nat));
                if bit {
                    value = value + (1u8 << index);
                }
            },
            None => {
                exhausted = true;
                break ;
            },
        }
        index += 1;
    }
    if value == 0 && exhausted {
        None
    } else {
        Some(value)
    }
}

/// Shifting a one to the left by `index` gives what bit `index` counts for.
proof fn lemma_shift_weight(index: u8)
    requires
        index < 8,
    ensures
        (1u8 << index) == weight(index as nat),
        weight(index as nat) <= 128,
{
    reveal_with_fuel(weight, 9);
    assert(index < 8 ==> (1u8 << index) == if index == 0 {
        1u8
    } else if index == 1 {
        2u8
    } else if index == 2 {
        4u8
    } else if index == 3 {
        8u8
    } else if index == 4 {
        16u8
    } else if index == 5 {
        32u8
    } else if index == 6 {
        64u8
    } else {
        128u8
    }) by (bit_vector);
}

/// Gives the bits of the bytes of a stream, one bit for each call of
/// [`Bits::next`].
#[derive(Debug)]
pub struct Bits<T> {
    bytes: T,
    byte: u8,
    offset: u8,
}

impl<T> Bits<T> {
    /// The reader of the bits of the stream `bytes`, with no byte at hand.
    pub closed spec fn over(bytes: T) -> Self {
        Bits { bytes, byte: 0, offset: BYTE_BITS }
    }

    /// The stream of bytes that the bits are taken from.
    pub closed spec fn source(self) -> T {
        self.bytes
    }

    /// The bits of the byte at hand that are still to be given.
    pub closed spec fn pending(self) -> Seq<bool> {
        if self.offset < BYTE_BITS {
            bits_of(self.byte).skip(self.offset as int)
        } else {
            Seq::empty()
        }
    }
}

impl<T: Iterator<Item = u8>> Iterator for Bits<T> {
    type Item = bool;

    /// Gives the next bit: the next of the byte at hand, or else the first of
    /// the next byte. `None` says that the bytes have ended.
    fn next(&mut self) -> (item: Option<Self::Item>)
        ensures
            final(self).source().obeys_prophetic_iter_laws() == old(self).source().obeys_prophetic_iter_laws(),
            old(self).pending().len() > 0 ==> {
                &&& item == Some(old(self).pending()[0])
                &&& final(self).pending() == old(self).pending().drop_first()
                &&& final(self).source() == old(self).source()
            },
            old(self).pending().len() == 0 && old(self).source().obeys_prophetic_iter_laws() ==> {
                let bytes = old(self).source().remaining();
                if bytes.len() > 0 {
                    &&& item == Some(bits_of(bytes[0])[0])
                    &&& final(self).pending() == bits_of(bytes[0]).drop_first()
                    &&& final(self).source().remaining() == bytes.drop_first()
                } else {
                    &&& item is None
                    &&& final(self).pending().len() == 0
                    &&& final(self).source().remaining() == bytes
                }
            },
    {
        if self.offset >= BYTE_BITS {
            match self.bytes.next() {
                None => {
                    return None;
                },
                Some(byte) => {
                    self.byte = byte;
                    self.offset = 0;
                },
            }
        }
        let bit = self.byte & (1 << self.offset) != 0;
        assert(bits_of(self.byte).skip(self.offset as int).drop_first() =~= bits_of(self.byte).skip(
            self.offset + 1,
        ));
        assert(bits_of(self.byte).skip(0) =~= bits_of(self.byte));
        self.offset += 1;
        Some(bit)
    }
}

impl<T: Iterator<Item = u8>> IteratorSpecImpl for Bits<T> {
    /// Nothing is claimed of the sequence as a whole: the contract of `next`
    /// says what every single call gives.
    open spec fn obeys_prophetic_iter_laws(&self) -> bool {
        false
    }

    open spec fn remaining(&self) -> Seq<Self::Item> {
        Seq::empty()
    }

    open spec fn will_return_none(&self) -> bool {
        false
    }

    open spec fn decrease(&self) -> Option<nat> {
        None
    }

    open spec fn initial_value_relation(&self, init: &Self) -> bool {
        true
    }

    open spec fn peek(&self, index: int) -> Option<Self::Item> {
        None
    }
}

impl<T> From<T> for Bits<T> {
    fn from(bytes: T) -> (bits: Self)
        ensures
            bits.source() == bytes,
            bits.pending().len() == 0,
    {
        Self { bytes, byte: 0, offset: BYTE_BITS }
    }
}

impl<T> FromSpecImpl<T> for Bits<T> {
    open spec fn obeys_from_spec() -> bool {
        true
    }

    open spec fn from_spec(bytes: T) -> Self {
        Bits::over(bytes)
    }
}

/// Gives the ability to read a stream of bytes bit by bit.
pub trait BytesToBits: Iterator<Item = u8> + Sized {
    /// The bits of the bytes, the least significant bit of each byte first.
    fn bits(self) -> (bits: Bits<Self>)
        ensures
            bits.source() == self,
            bits.pending().len() == 0,
    ;
}

impl<T: Iterator<Item = u8>> BytesToBits for T {
    fn bits(self) -> (bits: Bits<Self>) {
        Bits::from(self)
    }
}

} // verus!
