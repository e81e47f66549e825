//! Decimal digits in ASCII: how a number is written and how it is read back.
use vstd::prelude::*;

verus! {

/// The byte of the digit `0`.
pub const ZERO: u8 = 0x30;

/// The byte of the digit `9`.
pub const NINE: u8 = 0x39;

/// The byte of the letter `A`.
pub const LETTER_A: u8 = 0x41;

/// Whether `byte` is one of the ASCII digits `0` to `9`.
pub open spec fn is_digit(byte: u8) -> bool {
    ZERO <= byte <= NINE
}

/// The ASCII digit that stands for `value`, which is below ten.
pub open spec fn digit(value: nat) -> u8 {
    (ZERO + value) as u8
}

/// The decimal digits of `n` in ASCII, most significant digit first and
/// without leading zeros.
pub open spec fn decimal(n: nat) -> Seq<u8>
    decreases n,
{
    if n < 10 {
        seq![digit(n)]
    } else {
        decimal(n / 10).push(digit(n % 10))
    }
}

/// Whether every byte of `bytes` is an ASCII digit.
pub open spec fn all_digits(bytes: Seq<u8>) -> bool {
    forall|i: int| 0 <= i < bytes.len() ==> is_digit(#[trigger] bytes[i])
}

/// The number that a run of ASCII digits denotes, most significant digit
/// first.
pub open spec fn value(digits: Seq<u8>) -> nat
    recommends
        all_digits(digits),
    decreases digits.len(),
{
    if digits.len() == 0 {
        0
    } else {
        value(digits.drop_last()) * 10 + (digits.last() - ZERO) as nat
    }
}

/// The digits of a number are digits, and a number below 1000 has at most
/// three of them.
pub proof fn lemma_decimal_shape(n: nat)
    ensures
        all_digits(decimal(n)),
        decimal(n).len() >= 1,
        n < 10 ==> decimal(n).len() == 1,
        10 <= n < 100 ==> decimal(n).len() == 2,
        100 <= n < 1000 ==> decimal(n).len() == 3,
    decreases n,
{
    if n >= 10 {
        lemma_decimal_shape(n / 10);
    }
}

/// Reading the digits of a number gives the number back.
pub proof fn lemma_value_of_decimal(n: nat)
    ensures
        value(decimal(n)) == n,
    decreases n,
{
    if n < 10 {
        assert(decimal(n).drop_last() =~= Seq::<u8>::empty());
        assert(value(decimal(n).drop_last()) == 0);
        assert(decimal(n).last() == digit(n));
    } else {
        lemma_value_of_decimal(n / 10);
        assert(decimal(n).drop_last() =~= decimal(n / 10));
        assert(decimal(n).last() == digit(n % 10));
    }
}

/// Whether `byte` is an ASCII digit.
pub fn is_ascii_digit(byte: u8) -> (yes: bool)
    ensures
        yes == is_digit(byte),
{
    ZERO <= byte && byte <= NINE
}

/// Writes `n` in decimal.
pub fn decimal_digits(n: u8) -> (digits: Vec<u8>)
    ensures
        digits@ == decimal(n as nat),
{
    let mut digits: Vec<u8> = Vec::new();
    if n >= 100 {
        digits.push(ZERO + n / 100);
    }
    if n >= 10 {
        digits.push(ZERO + (n / 10) % 10);
    }
    digits.push(ZERO + n % 10);
    proof {
        let m = n as nat;
        reveal_with_fuel(decimal, 3);
        assert(digits@ =~= decimal(m));
    }
    digits
}

/// The ASCII digit of the hexadecimal system that stands for `value`, which
/// is below sixteen: `0` to `9`, then `A` to `F`.
pub open spec fn hex_digit(value: nat) -> u8 {
    if value < 10 {
        (ZERO + value) as u8
    } else {
        (LETTER_A + value - 10) as u8
    }
}

/// The hexadecimal digits of `n` in ASCII, with capital letters, most
/// significant digit first and without leading zeros.
pub open spec fn hexadecimal(n: nat) -> Seq<u8>
    decreases n,
{
    if n < 16 {
        seq![hex_digit(n)]
    } else {
        hexadecimal(n / 16).push(hex_digit(n % 16))
    }
}

/// The hexadecimal digit of a value below sixteen.
fn hex_digit_of(value: u8) -> (digit: u8)
    requires
        value < 16,
    ensures
        digit == hex_digit(value as nat),
{
    if value < 10 {
        ZERO + value
    } else {
        LETTER_A + (value - 10)
    }
}

/// Writes `n` in hexadecimal, with capital letters.
pub fn hexadecimal_digits(n: u8) -> (digits: Vec<u8>)
    ensures
        digits@ == hexadecimal(n as nat),
{
    let mut digits: Vec<u8> = Vec::new();
    if n >= 16 {
        digits.push(hex_digit_of(n / 16));
    }
    digits.push(hex_digit_of(n % 16));
    proof {
        reveal_with_fuel(hexadecimal, 2);
        assert(digits@ =~= hexadecimal(n as nat));
    }
    digits
}

} // verus!
