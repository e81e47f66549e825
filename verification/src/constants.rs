use vstd::prelude::*;

verus! {

/// The escape byte that opens every color code block.
pub const CODE_START: u8 = 0x1b;

/// The byte `[` that stands between the escape byte and the digits.
pub const NUMBER_PREFIX: u8 = 0x5b;

/// The byte `m` that closes the digits.
pub const NUMBER_SUFFIX: u8 = 0x6d;

/// The byte that a block is filled with, a space. The terminal paints it in
/// the block's color.
pub const FILL: u8 = 0x20;

/// The largest number of digits that a block may hold.
pub const MAX_DIGITS: u8 = 3;

/// Print this text to reset a color code sequence on the terminal.
pub const RESET: &'static str = "\x1b[0m ";

} // verus!
