//! Two color codes that stand for one byte.
use crate::code::{is_code_number, lemma_nibble_round_trip, nibble_number, Code};
use vstd::prelude::*;
use vstd::std_specs::convert::FromSpecImpl;
use vstd::std_specs::iter::IteratorSpec;

verus! {

/// The byte that the codes `high` and `low` stand for: the nibble of `high`
/// in its upper half, the nibble of `low` in its lower half.
pub open spec fn pair_byte(high: Code, low: Code) -> u8 {
    (high.nibble() * 16 + low.nibble()) as u8
}

/// The code of the upper half of `byte`.
pub open spec fn high_code(byte: u8) -> Code {
    Code::of(nibble_number(byte / 16))
}

/// The code of the lower half of `byte`.
pub open spec fn low_code(byte: u8) -> Code {
    Code::of(nibble_number(byte % 16))
}

/// The two codes of a byte stand for that byte.
pub proof fn lemma_pair_round_trip(byte: u8)
    ensures
        pair_byte(high_code(byte), low_code(byte)) == byte,
        is_code_number(high_code(byte)@),
        is_code_number(low_code(byte)@),
{
    lemma_nibble_round_trip(byte / 16);
    lemma_nibble_round_trip(byte % 16);
    Code::lemma_view_of(nibble_number(byte / 16));
    Code::lemma_view_of(nibble_number(byte % 16));
}

/// One byte as a pair of color codes, the code of the upper nibble first.
#[derive(Debug, Clone, Copy, Eq, PartialEq)]
pub struct CodePair(u8);

impl View for CodePair {
    type V = u8;

    /// The byte that the pair stands for.
    closed spec fn view(&self) -> u8 {
        self.0
    }
}

impl CodePair {
    /// The pair that stands for `byte`.
    pub closed spec fn of(byte: u8) -> CodePair {
        CodePair(byte)
    }

    /// A pair is its byte and nothing else.
    pub broadcast proof fn lemma_of_view(self)
        ensures
            #[trigger] CodePair::of(self@) == self,
    {
    }

    /// The pair made of a byte stands for that byte.
    pub broadcast proof fn lemma_view_of(byte: u8)
        ensures
            #[trigger] CodePair::of(byte)@ == byte,
    {
    }

    /// The two codes of the pair, the code of the upper nibble first.
    pub fn codes(self) -> (codes: [Code; 2])
        ensures
            codes@ == seq![high_code(self@), low_code(self@)],
    {
        let codes = [Code::from_upper_nibble(self.0), Code::from_lower_nibble(self.0)];
        assert(codes@ =~= seq![high_code(self@), low_code(self@)]);
        codes
    }
}

impl From<u8> for CodePair {
    fn from(byte: u8) -> (pair: Self)
        ensures
            pair@ == byte,
    {
        Self(byte)
    }
}

impl FromSpecImpl<u8> for CodePair {
    open spec fn obeys_from_spec() -> bool {
        true
    }

    open spec fn from_spec(byte: u8) -> Self {
        CodePair::of(byte)
    }
}

impl From<[Code; 2]> for CodePair {
    fn from(codes: [Code; 2]) -> (pair: Self)
        ensures
            pair@ == pair_byte(codes[0], codes[1]),
    {
        let high = codes[0].to_nibble();
        let low = codes[1].to_nibble();
        assert((high << 4u8) | low == high * 16 + low) by (bit_vector)
            requires
                high < 16,
                low < 16,
        ;
        Self((high << 4) | low)
    }
}

impl FromSpecImpl<[Code; 2]> for CodePair {
    open spec fn obeys_from_spec() -> bool {
        true
    }

    open spec fn from_spec(codes: [Code; 2]) -> Self {
        CodePair::of(pair_byte(codes[0], codes[1]))
    }
}

impl From<CodePair> for u8 {
    fn from(pair: CodePair) -> (byte: Self) {
        pair.0
    }
}

impl FromSpecImpl<CodePair> for u8 {
    open spec fn obeys_from_spec() -> bool {
        true
    }

    open spec fn from_spec(pair: CodePair) -> Self {
        pair@
    }
}

impl IntoIterator for CodePair {
    type Item = Code;

    type IntoIter = std::vec::IntoIter<Code>;

    /// The two codes of the pair one after the other, the code of the upper
    /// nibble first.
    fn into_iter(self) -> (codes: Self::IntoIter)
        ensures
            codes.obeys_prophetic_iter_laws(),
            codes.remaining() == seq![high_code(self@), low_code(self@)],
    {
        let pair = self.codes();
        let mut codes: Vec<Code> = Vec::new();
        codes.push(pair[0]);
        codes.push(pair[1]);
        assert(codes@ =~= seq![high_code(self@), low_code(self@)]);
        codes.into_iter()
    }
}

} // verus!
