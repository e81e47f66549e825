//! One color code: the number of an ANSI background color, which stands for a
//! nibble.
use crate::ascii::{chars, to_text};
use crate::error::Error;
use crate::wire::{block_bytes, block_text};
use vstd::prelude::*;
use vstd::std_specs::convert::TryFromSpecImpl;
use vstd::std_specs::iter::IteratorSpec;

verus! {

/// The number of the first color of the low set.
pub const COLOR_OFFSET_LOW: u8 = 40;

/// The number of the first color of the high set.
pub const COLOR_OFFSET_HIGH: u8 = 100;

/// The bit of a nibble that selects the high set.
pub const COLOR_CODE_HIGH_BIT: u8 = 0b1000;

const MASK_LOW: u8 = 0b0000_1111;

const MASK_HIGH: u8 = 0b1111_0000;

const MASK_TRIPLET: u8 = 0b0000_0111;

const MASK_BITS: u8 = 4;

/// Whether `number` is the number of a background color: 40 to 47 (the low
/// set) or 100 to 107 (the high set).
pub open spec fn is_code_number(number: u8) -> bool {
    40 <= number <= 47 || 100 <= number <= 107
}

/// The color number that stands for `nibble`: the low set counts the nibbles
/// 0 to 7 from 40, the high set counts the nibbles 8 to 15 from 100.
pub open spec fn nibble_number(nibble: u8) -> u8
    recommends
        nibble < 16,
{
    if nibble < 8 {
        (nibble + 40) as u8
    } else {
        (nibble % 8 + 100) as u8
    }
}

/// The nibble that the color number `number` stands for.
pub open spec fn number_nibble(number: u8) -> u8
    recommends
        is_code_number(number),
{
    if number < 100 {
        (number - 40) as u8
    } else {
        (number - 100 + 8) as u8
    }
}

/// The three low bits of `value`, least significant first.
pub open spec fn low_bits(value: u8) -> Seq<bool> {
    seq![value % 2 == 1, (value / 2) % 2 == 1, (value / 4) % 2 == 1]
}

/// Every nibble has a color number, and the number stands for that nibble
/// again.
pub proof fn lemma_nibble_round_trip(nibble: u8)
    requires
        nibble < 16,
    ensures
        is_code_number(nibble_number(nibble)),
        number_nibble(nibble_number(nibble)) == nibble,
        Code::of(nibble_number(nibble)).nibble() == nibble,
{
    Code::lemma_view_of(nibble_number(nibble));
}

/// Every color number stands for a nibble, and the nibble has that number
/// again.
pub proof fn lemma_number_round_trip(number: u8)
    requires
        is_code_number(number),
    ensures
        number_nibble(number) < 16,
        nibble_number(number_nibble(number)) == number,
{
}

/// An ANSI color code segment, encoding a nibble.
#[derive(Debug, Clone, Copy, Eq, PartialEq)]
pub struct Code(u8);

impl View for Code {
    type V = u8;

    /// The color number of the code.
    closed spec fn view(&self) -> u8 {
        self.0
    }
}

impl Code {
    #[verifier::type_invariant]
    spec fn well_formed(self) -> bool {
        is_code_number(self.0)
    }

    /// The code with the color number `number`.
    pub closed spec fn of(number: u8) -> Code {
        Code(number)
    }

    /// The nibble that the code stands for.
    pub open spec fn nibble(self) -> u8 {
        number_nibble(self@)
    }

    /// The bytes that the code is written as.
    pub open spec fn text(self) -> Seq<u8> {
        block_text(self@)
    }

    /// A code is its color number and nothing else.
    pub broadcast proof fn lemma_of_view(self)
        ensures
            #[trigger] Code::of(self@) == self,
    {
    }

    /// The code made of a number has that number.
    pub broadcast proof fn lemma_view_of(number: u8)
        ensures
            #[trigger] Code::of(number)@ == number,
    {
    }

    /// Make the code with the color number `number`.
    pub fn new(number: u8) -> (code: Self)
        requires
            is_code_number(number),
        ensures
            code == Code::of(number),
            code@ == number,
    {
        Self(number)
    }

    /// The color number of the code.
    pub fn number(&self) -> (number: u8)
        ensures
            number == self@,
            is_code_number(number),
    {
        proof {
            use_type_invariant(self);
        }
        self.0
    }

    /// Parse a [`Code`] from the lower half of a byte.
    #[must_use]
    pub fn from_lower_nibble(byte: u8) -> (code: Self)
        ensures
            code == Code::of(nibble_number(byte % 16)),
            code@ == nibble_number(byte % 16),
    {
        assert(byte & 0b0000_1111 == byte % 16) by (bit_vector);
        Self::from_nibble(byte & MASK_LOW)
    }

    /// Parse a [`Code`] from the upper half of a byte.
    #[must_use]
    pub fn from_upper_nibble(byte: u8) -> (code: Self)
        ensures
            code == Code::of(nibble_number(byte / 16)),
            code@ == nibble_number(byte / 16),
    {
        assert((byte & 0b1111_0000) >> 4u8 == byte / 16) by (bit_vector);
        Self::from_nibble((byte & MASK_HIGH) >> MASK_BITS)
    }

    /// Return a half-byte sized value from the color code.
    #[must_use]
    pub fn to_nibble(self) -> (nibble: u8)
        ensures
            nibble == self.nibble(),
            nibble < 16,
    {
        proof {
            use_type_invariant(self);
        }
        if self.0 < COLOR_OFFSET_HIGH {
            self.0 - COLOR_OFFSET_LOW
        } else {
            self.0 - COLOR_OFFSET_HIGH + COLOR_CODE_HIGH_BIT
        }
    }

    /// The code that stands for `nibble`.
    pub fn from_nibble(nibble: u8) -> (code: Self)
        requires
            nibble < 16,
        ensures
            code == Code::of(nibble_number(nibble)),
            code@ == nibble_number(nibble),
    {
        if nibble <= MASK_TRIPLET {
            Self(nibble + COLOR_OFFSET_LOW)
        } else {
            assert(nibble & 0b0000_0111 == nibble % 8) by (bit_vector);
            Self((nibble & MASK_TRIPLET) + COLOR_OFFSET_HIGH)
        }
    }

    /// How far the color number lies above the first color of the low set.
    pub fn byte(&self) -> (byte: u8)
        ensures
            byte == self@ - 40,
    {
        proof {
            use_type_invariant(self);
        }
        self.0 - COLOR_OFFSET_LOW
    }

    /// The three low bits of [`Code::byte`], least significant first.
    pub fn triplet(&self) -> (bits: [bool; 3])
        ensures
            bits@ == low_bits((self@ - 40) as u8),
    {
        let byte = self.byte();
        assert(byte & 0b001 != 0 <==> byte % 2 == 1) by (bit_vector);
        assert(byte & 0b010 != 0 <==> (byte / 2) % 2 == 1) by (bit_vector);
        assert(byte & 0b100 != 0 <==> (byte / 4) % 2 == 1) by (bit_vector);
        let bits = [byte & 0b001 != 0, byte & 0b010 != 0, byte & 0b100 != 0];
        assert(bits@ =~= low_bits(byte));
        bits
    }

    /// The bits of [`Code::triplet`], one after the other.
    pub fn triplets(&self) -> (bits: std::vec::IntoIter<bool>)
        ensures
            bits.obeys_prophetic_iter_laws(),
            bits.remaining() == low_bits((self@ - 40) as u8),
    {
        let triplet = self.triplet();
        let mut bits: Vec<bool> = Vec::new();
        bits.push(triplet[0]);
        bits.push(triplet[1]);
        bits.push(triplet[2]);
        assert(bits@ =~= triplet@);
        bits.into_iter()
    }

    /// The bytes that the code is written as: the block of its number.
    pub fn to_bytes(&self) -> (bytes: Vec<u8>)
        ensures
            bytes@ == self.text(),
    {
        block_bytes(self.0)
    }

    /// The text that the code is written as.
    pub fn to_string(&self) -> (text: String)
        ensures
            text@ == chars(self.text()),
    {
        let bytes = self.to_bytes();
        to_text(&bytes)
    }
}

impl IntoIterator for Code {
    type Item = u8;

    type IntoIter = std::vec::IntoIter<u8>;

    /// The bytes that the code is written as, one after the other.
    fn into_iter(self) -> (bytes: Self::IntoIter)
        ensures
            bytes.obeys_prophetic_iter_laws(),
            bytes.remaining() == self.text(),
    {
        self.to_bytes().into_iter()
    }
}

impl TryFrom<u8> for Code {
    type Error = Error;

    /// Attempt to create a [`Code`] from an unsigned byte.
    ///
    /// # Errors
    ///
    /// * [`Error::ValueOutOfBounds`] - if the number is not within valid bounds
    fn try_from(number: u8) -> (code: Result<Self, Self::Error>) {
        if (COLOR_OFFSET_LOW <= number && number <= COLOR_OFFSET_LOW + MASK_TRIPLET) || (
        COLOR_OFFSET_HIGH <= number && number <= COLOR_OFFSET_HIGH + MASK_TRIPLET) {
            Ok(Self(number))
        } else {
            Err(Error::ValueOutOfBounds(number))
        }
    }
}

impl TryFromSpecImpl<u8> for Code {
    open spec fn obeys_try_from_spec() -> bool {
        true
    }

    open spec fn try_from_spec(number: u8) -> Result<Self, Error> {
        if is_code_number(number) {
            Ok(Code::of(number))
        } else {
            Err(Error::ValueOutOfBounds(number))
        }
    }
}

} // verus!
