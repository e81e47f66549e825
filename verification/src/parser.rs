//! The parser: it reads color code blocks from a stream of bytes, one block
//! for each call.
use crate::code::Code;
use crate::constants::{CODE_START, MAX_DIGITS, NUMBER_PREFIX, NUMBER_SUFFIX};
use crate::digits::{is_ascii_digit, is_digit, value, ZERO};
use crate::error::Error;
use crate::wire::{
    block, closed_by, header, leading_digits, lemma_leading_digits, lemma_number_length, number,
    number_of,
};
use vstd::prelude::*;
use vstd::std_specs::convert::FromSpecImpl;
use vstd::std_specs::iter::{IteratorSpec, IteratorSpecImpl};

verus! {

/// The digits that the parser holds while it reads a number, in the order in
/// which they came.
type Digits = [Option<u8>; 3];

/// The bytes that `digits` holds, in order.
spec fn held(digits: Seq<Option<u8>>) -> Seq<u8>
    decreases digits.len(),
{
    if digits.len() == 0 {
        Seq::empty()
    } else {
        match digits.last() {
            Some(byte) => held(digits.drop_last()).push(byte),
            None => held(digits.drop_last()),
        }
    }
}

/// Whether every byte that `digits` holds is an ASCII digit.
spec fn only_digits(digits: Seq<Option<u8>>) -> bool {
    forall|i: int|
        0 <= i < digits.len() ==> match #[trigger] digits[i] {
            Some(byte) => is_digit(byte),
            None => true,
        }
}

/// The digits that are held when the first `count` places are filled with
/// the front of `bytes` and the others are empty.
proof fn lemma_held_front(digits: Seq<Option<u8>>, bytes: Seq<u8>, count: nat)
    requires
        count <= digits.len(),
        count <= bytes.len(),
        forall|i: int| 0 <= i < count ==> digits[i] == Some(bytes[i]),
        forall|i: int| count <= i < digits.len() ==> digits[i] is None,
    ensures
        held(digits) == bytes.take(count as int),
    decreases digits.len(),
{
    if digits.len() == 0 {
        assert(bytes.take(0) =~= Seq::<u8>::empty());
    } else if digits.len() == count {
        lemma_held_front(digits.drop_last(), bytes, (count - 1) as nat);
        assert(bytes.take(count as int) =~= bytes.take(count - 1).push(bytes[count - 1]));
    } else {
        lemma_held_front(digits.drop_last(), bytes, count);
    }
}

/// A number is no smaller than the number that its first digits denote.
proof fn lemma_value_grows(digits: Seq<u8>, front: int)
    requires
        0 <= front <= digits.len(),
    ensures
        value(digits.take(front)) <= value(digits),
    decreases digits.len() - front,
{
    if front == digits.len() {
        assert(digits.take(front) =~= digits);
    } else {
        lemma_value_grows(digits.drop_last(), front);
        assert(digits.drop_last().take(front) =~= digits.take(front));
    }
}

/// The number that the held digits denote, where it fits into a byte.
fn parse_digits(digits: Digits) -> (number: Result<u8, Error>)
    requires
        only_digits(digits@),
    ensures
        number == number_of(held(digits@)),
{
    let mut n: u8 = 0;
    let mut i: usize = 0;
    let ghost all = held(digits@);
    while i < 3
        invariant
            i <= 3,
            all == held(digits@),
            n == value(held(digits@.take(i as int))),
            only_digits(digits@),
        decreases 3 - i,
    {
        let ghost before = held(digits@.take(i as int));
        proof {
            assert(digits@.take(i + 1).drop_last() =~= digits@.take(i as int));
            assert(digits@.take(i + 1).last() == digits@[i as int]);
        }
        if let Some(byte) = digits[i] {
            let digit = byte - ZERO;
            let ghost now = before.push(byte);
            proof {
                assert(now.drop_last() =~= before);
                assert(value(now) == n * 10 + digit);
                assert(held(digits@.take(i + 1)) == now);
                lemma_held_is_front(digits@, i + 1);
                let front = choose|front: int| 0 <= front <= all.len() && #[trigger] all.take(front) == now;
                lemma_value_grows(all, front);
            }
            match n.checked_mul(10) {
                Some(tens) => match tens.checked_add(digit) {
                    Some(sum) => {
                        n = sum;
                    },
                    None => {
                        return Err(Error::InvalidCodeValue);
                    },
                },
                None => {
                    return Err(Error::InvalidCodeValue);
                },
            }
        } else {
            proof {
                assert(held(digits@.take(i + 1)) == before);
            }
        }
        i += 1;
    }
    proof {
        assert(digits@.take(3) =~= digits@);
    }
    Ok(n)
}

/// What is held in the first places of `digits` stands at the front of all
/// that is held.
proof fn lemma_held_is_front(digits: Seq<Option<u8>>, places: int)
    requires
        0 <= places <= digits.len(),
    ensures
        exists|front: int| 0 <= front <= held(digits).len() && #[trigger] held(digits).take(front) == held(digits.take(places)),
    decreases digits.len() - places,
{
    if places == digits.len() {
        assert(digits.take(places) =~= digits);
        assert(held(digits).take(held(digits).len() as int) =~= held(digits));
    } else {
        lemma_held_is_front(digits.drop_last(), places);
        let front = choose|front: int| 0 <= front <= held(digits.drop_last()).len() && #[trigger] held(digits.drop_last()).take(front) == held(digits.drop_last().take(places));
        assert(digits.drop_last().take(places) =~= digits.take(places));
        assert(held(digits).take(front) =~= held(digits.drop_last()).take(front));
    }
}

/// How many digits are held.
fn count_digits(digits: &Digits) -> (count: u8)
    ensures
        count == held(digits@).len(),
{
    let mut count: u8 = 0;
    let mut i: usize = 0;
    while i < 3
        invariant
            i <= 3,
            count <= i,
            count == held(digits@.take(i as int)).len(),
        decreases 3 - i,
    {
        proof {
            assert(digits@.take(i + 1).drop_last() =~= digits@.take(i as int));
            assert(digits@.take(i + 1).last() == digits@[i as int]);
        }
        if digits[i].is_some() {
            count += 1;
        }
        i += 1;
    }
    proof {
        assert(digits@.take(3) =~= digits@);
    }
    count
}

/// What the held digits, followed by the byte `byte`, come to.
fn validate(digits: Digits, byte: u8) -> (number: Result<u8, Error>)
    requires
        only_digits(digits@),
    ensures
        number == closed_by(held(digits@), byte),
{
    if byte != NUMBER_SUFFIX {
        if is_ascii_digit(byte) {
            return Err(Error::TooManyCodeDigits { at_least: count_digits(&digits), max: MAX_DIGITS });
        }
        return Err(Error::UnexpectedByte(byte));
    }
    if count_digits(&digits) == 0 {
        return Err(Error::NoCodeDigitsFound);
    }
    parse_digits(digits)
}

/// Reads color codes from a stream of bytes: each call of [`Parser::next`]
/// reads one block.
#[derive(Debug, Eq, PartialEq)]
pub struct Parser<T> {
    bytes: T,
}

impl<T> Parser<T> {
    /// The parser that reads from the stream `bytes`.
    pub closed spec fn over(bytes: T) -> Self {
        Parser { bytes }
    }

    /// The stream that the parser reads from.
    pub closed spec fn source(self) -> T {
        self.bytes
    }
}

impl<T: Iterator<Item = u8>> Parser<T> {
    /// Reads the two bytes in front of the number.
    pub(crate) fn next_header(&mut self) -> (found: Option<Result<(), Error>>)
        ensures
            final(self).source().obeys_prophetic_iter_laws() == old(self).source().obeys_prophetic_iter_laws(),
            old(self).source().obeys_prophetic_iter_laws() ==> {
                &&& found == header(old(self).source().remaining()).0
                &&& final(self).source().remaining() == old(self).source().remaining().skip(
                    header(old(self).source().remaining()).1 as int,
                )
            },
    {
        let ghost input = self.bytes.remaining();
        let ghost lawful = self.bytes.obeys_prophetic_iter_laws();
        assert(input.skip(0) =~= input);
        match self.bytes.next() {
            None => None,
            Some(byte) => {
                assert(lawful ==> input.drop_first() =~= input.skip(1));
                if byte == CODE_START {
                    match self.bytes.next() {
                        None => Some(Err(Error::ByteStreamTerminatedUnexpectedly)),
                        Some(byte) => {
                            assert(lawful ==> input.skip(1).drop_first() =~= input.skip(2));
                            if byte == NUMBER_PREFIX {
                                Some(Ok(()))
                            } else {
                                Some(Err(Error::InvalidNumberPrefix(byte)))
                            }
                        },
                    }
                } else {
                    Some(Err(Error::InvalidStartByte(byte)))
                }
            },
        }
    }

    /// Reads the digits of the number and the byte that ends them.
    pub(crate) fn parse_color_code(&mut self) -> (found: Result<u8, Error>)
        ensures
            final(self).source().obeys_prophetic_iter_laws() == old(self).source().obeys_prophetic_iter_laws(),
            old(self).source().obeys_prophetic_iter_laws() ==> {
                &&& found == number(old(self).source().remaining()).0
                &&& final(self).source().remaining() == old(self).source().remaining().skip(
                    number(old(self).source().remaining()).1 as int,
                )
            },
    {
        let ghost rest = self.bytes.remaining();
        let ghost lawful = self.bytes.obeys_prophetic_iter_laws();
        let mut digits: Digits = [None, None, None];
        let mut i: usize = 0;
        assert(rest.skip(0) =~= rest);
        while i < 3
            invariant
                i <= 3,
                lawful == old(self).bytes.obeys_prophetic_iter_laws(),
                rest == old(self).bytes.remaining(),
                self.bytes.obeys_prophetic_iter_laws() == lawful,
                only_digits(digits@),
                lawful ==> {
                    &&& i <= rest.len()
                    &&& self.bytes.remaining() == rest.skip(i as int)
                    &&& forall|k: int| 0 <= k < i ==> is_digit(#[trigger] rest[k])
                    &&& forall|k: int| 0 <= k < i ==> digits@[k] == Some(rest[k])
                    &&& forall|k: int| i <= k < 3 ==> digits@[k] is None
                },
            decreases 3 - i,
        {
            let next = self.bytes.next();
            assert(lawful && rest.len() > i ==> rest.skip(i as int).drop_first() =~= rest.skip(
                i + 1,
            ));
            assert(lawful && rest.len() <= i ==> rest.skip(i as int) =~= rest.skip(
                rest.len() as int,
            ));
            assert(lawful ==> held(digits@) == rest.take(i as int)) by {
                if lawful {
                    lemma_held_front(digits@, rest, i as nat);
                }
            }
            let Some(byte) = next else {
                assert(lawful ==> leading_digits(rest, MAX_DIGITS as nat) == i) by {
                    if lawful {
                        lemma_leading_digits(rest, MAX_DIGITS as nat, i as nat);
                    }
                }
                return Err(Error::ByteStreamTerminatedUnexpectedly);
            };
            if is_ascii_digit(byte) {
                digits[i] = Some(byte);
            } else {
                assert(lawful ==> leading_digits(rest, MAX_DIGITS as nat) == i) by {
                    if lawful {
                        lemma_leading_digits(rest, MAX_DIGITS as nat, i as nat);
                    }
                }
                return validate(digits, byte);
            }
            i += 1;
        }
        let next = self.bytes.next();
        assert(lawful && rest.len() > 3 ==> rest.skip(3).drop_first() =~= rest.skip(4));
        assert(lawful && rest.len() <= 3 ==> rest.skip(3) =~= rest.skip(rest.len() as int));
        assert(lawful ==> held(digits@) == rest.take(3) && leading_digits(
            rest,
            MAX_DIGITS as nat,
        ) == 3) by {
            if lawful {
                lemma_held_front(digits@, rest, 3);
                lemma_leading_digits(rest, MAX_DIGITS as nat, 3);
            }
        }
        let Some(byte) = next else {
            return Err(Error::ByteStreamTerminatedUnexpectedly);
        };
        validate(digits, byte)
    }

    /// Reads one byte, if there is one: the byte behind the number.
    pub(crate) fn next_fill(&mut self) -> (fill: Option<u8>)
        ensures
            final(self).source().obeys_prophetic_iter_laws() == old(self).source().obeys_prophetic_iter_laws(),
            old(self).source().obeys_prophetic_iter_laws() ==> {
                let rest = old(self).source().remaining();
                if rest.len() > 0 {
                    fill == Some(rest[0]) && final(self).source().remaining() == rest.skip(1)
                } else {
                    fill is None && final(self).source().remaining() == rest
                }
            },
    {
        let ghost rest = self.bytes.remaining();
        let ghost lawful = self.bytes.obeys_prophetic_iter_laws();
        let fill = self.bytes.next();
        assert(lawful && rest.len() > 0 ==> rest.drop_first() =~= rest.skip(1));
        fill
    }

    /// Reads the number of the block and the byte behind it.
    fn read_color_code(&mut self) -> (found: Result<u8, Error>)
        ensures
            final(self).source().obeys_prophetic_iter_laws() == old(self).source().obeys_prophetic_iter_laws(),
            old(self).source().obeys_prophetic_iter_laws() ==> {
                let rest = old(self).source().remaining();
                let fill: nat = if found is Ok && rest.len() > number(rest).1 {
                    1
                } else {
                    0
                };
                &&& found == number(rest).0
                &&& final(self).source().remaining() == rest.skip((number(rest).1 + fill) as int)
            },
    {
        let ghost rest = self.bytes.remaining();
        let ghost lawful = self.bytes.obeys_prophetic_iter_laws();
        let number = match self.parse_color_code() {
            Ok(number) => number,
            Err(error) => {
                return Err(error);
            },
        };
        let ghost length = self::number(rest).1 as int;
        assert(0 <= length <= rest.len()) by {
            lemma_number_length(rest);
        }
        let _ = self.next_fill();  // Discard the byte that carries the color.
        assert(lawful && rest.len() > length ==> rest.skip(length).skip(1) =~= rest.skip(length + 1));
        Ok(number)
    }
}

impl<T> From<T> for Parser<T> {
    fn from(bytes: T) -> (parser: Self)
        ensures
            parser.source() == bytes,
    {
        Self { bytes }
    }
}

impl<T> FromSpecImpl<T> for Parser<T> {
    open spec fn obeys_from_spec() -> bool {
        true
    }

    open spec fn from_spec(bytes: T) -> Self {
        Parser::over(bytes)
    }
}

impl<T: Iterator<Item = u8>> Iterator for Parser<T> {
    type Item = Result<Code, Error>;

    /// Reads the next block. `None` ends the sequence of codes: the input has
    /// ended between two blocks, or the block holds the number 0.
    fn next(&mut self) -> (item: Option<Self::Item>)
        ensures
            final(self).source().obeys_prophetic_iter_laws() == old(self).source().obeys_prophetic_iter_laws(),
            old(self).source().obeys_prophetic_iter_laws() ==> {
                &&& item == block(old(self).source().remaining()).0
                &&& final(self).source().remaining() == old(self).source().remaining().skip(
                    block(old(self).source().remaining()).1 as int,
                )
            },
    {
        let ghost input = self.bytes.remaining();
        let ghost lawful = self.bytes.obeys_prophetic_iter_laws();
        match self.next_header() {
            None => None,
            Some(Err(error)) => Some(Err(error)),
            Some(Ok(())) => {
                let ghost rest = input.skip(2);
                let ghost taken = number(rest).1 as int;
                assert(0 <= taken <= rest.len()) by {
                    lemma_number_length(rest);
                }
                assert(lawful ==> rest.skip(taken) =~= input.skip(2 + taken));
                assert(lawful && rest.len() > taken ==> rest.skip(taken + 1) =~= input.skip(2 + taken + 1));
                match self.read_color_code() {
                    Err(error) => Some(Err(error)),
                    Ok(sum) => {
                        if sum == 0 {
                            None
                        } else {
                            Some(Code::try_from(sum))
                        }
                    },
                }
            },
        }
    }
}

impl<T: Iterator<Item = u8>> IteratorSpecImpl for Parser<T> {
    /// The parser may give codes again after it has given `None`, so nothing
    /// is claimed of the sequence as a whole: the contract of `next` says what
    /// every single call gives.
    open spec fn obeys_prophetic_iter_laws(&self) -> bool {
        false
    }

    open spec fn remaining(&self) -> Seq<Self::Item> {
        Seq::empty()
    }

    open spec fn will_return_none(&self) -> bool {
        false
    }

    open spec fn decrease(&self) -> Option<nat> {
        None
    }

    open spec fn initial_value_relation(&self, init: &Self) -> bool {
        true
    }

    open spec fn peek(&self, index: int) -> Option<Self::Item> {
        None
    }
}

} // verus!
