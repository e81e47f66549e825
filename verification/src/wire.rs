//! The wire format: every color code is written as one block, and a block is
//! read back as one code.
//!
//! A block is the escape byte, `[`, one to three decimal digits, `m`, and one
//! more byte, which fills the block on the terminal:
//!
//! ```text
//! 0x1B '[' <digits> 'm' <fill>
//! ```
use crate::ascii::chars;
use crate::code::{is_code_number, Code};
use crate::constants::{CODE_START, FILL, MAX_DIGITS, NUMBER_PREFIX, NUMBER_SUFFIX, RESET};
use crate::digits::{
    decimal, decimal_digits, is_digit, lemma_decimal_shape, lemma_value_of_decimal, value, ZERO,
};
use crate::error::Error;
use vstd::prelude::*;
use vstd::std_specs::convert::TryFromSpec;

verus! {

/// The bytes of the block that carries `number`: escape, `[`, the decimal
/// digits of the number, `m`, and one space.
pub open spec fn block_text(number: u8) -> Seq<u8> {
    seq![CODE_START, NUMBER_PREFIX] + decimal(number as nat) + seq![NUMBER_SUFFIX, FILL]
}

/// Writes the block that carries `number`.
pub fn block_bytes(number: u8) -> (bytes: Vec<u8>)
    ensures
        bytes@ == block_text(number),
{
    let mut bytes: Vec<u8> = Vec::new();
    bytes.push(CODE_START);
    bytes.push(NUMBER_PREFIX);
    let mut digits = decimal_digits(number);
    bytes.append(&mut digits);
    bytes.push(NUMBER_SUFFIX);
    bytes.push(FILL);
    assert(bytes@ =~= block_text(number));
    bytes
}

/// What the two bytes in front of the number come to, and how many bytes of
/// `input` that takes. Without a byte there is no block; a first byte other
/// than the escape byte, or a second byte other than `[`, is an error, and so
/// is an end after the first byte.
pub open spec fn header(input: Seq<u8>) -> (Option<Result<(), Error>>, nat) {
    if input.len() == 0 {
        (None, 0)
    } else if input[0] != CODE_START {
        (Some(Err(Error::InvalidStartByte(input[0]))), 1)
    } else if input.len() == 1 {
        (Some(Err(Error::ByteStreamTerminatedUnexpectedly)), 1)
    } else if input[1] != NUMBER_PREFIX {
        (Some(Err(Error::InvalidNumberPrefix(input[1]))), 2)
    } else {
        (Some(Ok(())), 2)
    }
}

/// How many digits stand at the front of `bytes`, counted up to `limit`.
pub open spec fn leading_digits(bytes: Seq<u8>, limit: nat) -> nat
    decreases limit,
{
    if limit > 0 && bytes.len() > 0 && is_digit(bytes[0]) {
        1 + leading_digits(bytes.drop_first(), (limit - 1) as nat)
    } else {
        0
    }
}

/// The number that the digits `digits` denote, if it fits into a byte, and
/// else the error that it is no valid code value.
pub open spec fn number_of(digits: Seq<u8>) -> Result<u8, Error> {
    if value(digits) > u8::MAX {
        Err(Error::InvalidCodeValue)
    } else {
        Ok(value(digits) as u8)
    }
}

/// What the digits `digits`, followed by the byte `end`, come to. The digits
/// must end with `m` and there must be one at least; another digit in place
/// of the `m` is one digit too many.
pub open spec fn closed_by(digits: Seq<u8>, end: u8) -> Result<u8, Error> {
    if end == NUMBER_SUFFIX {
        if digits.len() == 0 {
            Err(Error::NoCodeDigitsFound)
        } else {
            number_of(digits)
        }
    } else if is_digit(end) {
        Err(Error::TooManyCodeDigits { at_least: digits.len() as u8, max: MAX_DIGITS })
    } else {
        Err(Error::UnexpectedByte(end))
    }
}

/// The number at the front of `rest`, the bytes behind the header, and how
/// many bytes it takes: up to three digits and the byte that ends them.
pub open spec fn number(rest: Seq<u8>) -> (Result<u8, Error>, nat) {
    let count = leading_digits(rest, MAX_DIGITS as nat);
    if rest.len() <= count {
        (Err(Error::ByteStreamTerminatedUnexpectedly), rest.len())
    } else {
        (closed_by(rest.take(count as int), rest[count as int]), count + 1)
    }
}

/// What one call of the parser makes of the bytes `input` that are still to
/// come, and how many of them it takes.
///
/// A block is the header, a number and one more byte, which is taken
/// whatever it is, and also where the input ends before it. The number 0
/// ends the sequence of codes, as the end of the input between two blocks
/// does.
///
/// After an error in the header or in the number the parser has taken the
/// bytes up to the one that it stumbled over, and no more. A number above 255
/// is such an error: it is an invalid code value, and it is found before the
/// number is held against the sixteen colors. A number that fits into a byte
/// and is no color is out of bounds; that is found when the whole block has
/// been taken.
pub open spec fn block(input: Seq<u8>) -> (Option<Result<Code, Error>>, nat) {
    match header(input) {
        (Some(Ok(())), start) => {
            let rest = input.skip(start as int);
            match number(rest) {
                (Ok(number), length) => {
                    let fill: nat = if rest.len() > length {
                        1
                    } else {
                        0
                    };
                    let item = if number == 0 {
                        None
                    } else {
                        Some(Code::try_from_spec(number))
                    };
                    (item, start + length + fill)
                },
                (Err(error), length) => (Some(Err(error)), start + length),
            }
        },
        (Some(Err(error)), length) => (Some(Err(error)), length),
        (None, length) => (None, length),
    }
}

/// A digit of the front of `bytes` is counted as long as the limit allows.
pub proof fn lemma_leading_digits(bytes: Seq<u8>, limit: nat, count: nat)
    requires
        count <= limit,
        count <= bytes.len(),
        forall|i: int| 0 <= i < count ==> is_digit(#[trigger] bytes[i]),
        count == limit || count == bytes.len() || !is_digit(bytes[count as int]),
    ensures
        leading_digits(bytes, limit) == count,
    decreases limit,
{
    if count > 0 {
        let tail = bytes.drop_first();
        assert forall|i: int| 0 <= i < count - 1 implies is_digit(#[trigger] tail[i]) by {
            assert(tail[i] == bytes[i + 1]);
        }
        if count < limit && count < bytes.len() {
            assert(tail[count - 1] == bytes[count as int]);
        }
        lemma_leading_digits(tail, (limit - 1) as nat, (count - 1) as nat);
    }
}

/// No more digits are counted than there are bytes, nor more than the limit.
proof fn lemma_leading_digits_bound(bytes: Seq<u8>, limit: nat)
    ensures
        leading_digits(bytes, limit) <= limit,
        leading_digits(bytes, limit) <= bytes.len(),
    decreases limit,
{
    if limit > 0 && bytes.len() > 0 && is_digit(bytes[0]) {
        lemma_leading_digits_bound(bytes.drop_first(), (limit - 1) as nat);
    }
}

/// A number takes no more bytes than there are.
pub proof fn lemma_number_length(rest: Seq<u8>)
    ensures
        number(rest).1 <= rest.len(),
        number(rest).1 <= MAX_DIGITS + 1,
        number(rest).0 is Ok ==> number(rest).1 >= 2,
{
    lemma_leading_digits_bound(rest, MAX_DIGITS as nat);
}

/// A call of the parser takes no more bytes than there are, and at least one
/// where it gives anything.
pub proof fn lemma_block_length(input: Seq<u8>)
    ensures
        block(input).1 <= input.len(),
        block(input).0 is Some ==> block(input).1 >= 1,
        input.len() > 0 ==> block(input).1 >= 1,
{
    if header(input).0 == Some(Ok::<(), Error>(())) {
        lemma_number_length(input.skip(2));
    }
}

/// The parser reads back what a code is written as: where the bytes to come
/// begin with the block of a color number, the parser gives the code of that
/// number and takes the block, whatever follows it.
pub proof fn lemma_block_of_text(number: u8, rest: Seq<u8>)
    requires
        is_code_number(number),
    ensures
        block(block_text(number) + rest) == (
            Some(Ok::<Code, Error>(Code::of(number))),
            block_text(number).len(),
        ),
{
    let digits = decimal(number as nat);
    let input = block_text(number) + rest;
    let behind = input.skip(2);
    let count = digits.len();
    lemma_decimal_shape(number as nat);
    lemma_value_of_decimal(number as nat);
    assert(behind =~= digits + seq![NUMBER_SUFFIX, FILL] + rest);
    assert forall|i: int| 0 <= i < count implies is_digit(#[trigger] behind[i]) by {
        assert(behind[i] == digits[i]);
    }
    assert(behind[count as int] == NUMBER_SUFFIX);
    lemma_leading_digits(behind, MAX_DIGITS as nat, count);
    assert(behind.take(count as int) =~= digits);
}

/// The block of the number 0 ends the codes: where the bytes to come begin
/// with it, the parser gives nothing and takes the block, whatever follows it.
pub proof fn lemma_block_of_zero(rest: Seq<u8>)
    ensures
        block(block_text(0) + rest) == (None::<Result<Code, Error>>, block_text(0).len()),
        block_text(0) == seq![CODE_START, NUMBER_PREFIX, ZERO, NUMBER_SUFFIX, FILL],
{
    let input = block_text(0) + rest;
    let behind = input.skip(2);
    assert(block_text(0) =~= seq![CODE_START, NUMBER_PREFIX, ZERO, NUMBER_SUFFIX, FILL]);
    assert(behind =~= seq![ZERO, NUMBER_SUFFIX, FILL] + rest);
    lemma_leading_digits(behind, MAX_DIGITS as nat, 1);
    assert(behind.take(1) =~= seq![ZERO]);
    lemma_value_of_decimal(0);
}

/// The text that resets the colors is the block of the number 0.
pub proof fn lemma_reset_text()
    ensures
        RESET@ == chars(block_text(0)),
{
    reveal_strlit("\x1b[0m ");
    assert(RESET@ =~= chars(block_text(0)));
}

} // verus!
