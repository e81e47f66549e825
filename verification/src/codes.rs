//! A lenient reader of color codes: it gives the codes of a stream of bytes
//! for as long as the bytes are well formed, and gives no errors.
use crate::code::{is_code_number, Code};
use crate::constants::FILL;
use crate::error::Error;
use crate::parser::Parser;
use crate::wire::{header, lemma_number_length, number};
use vstd::prelude::*;
use vstd::std_specs::convert::FromSpecImpl;
use vstd::std_specs::iter::{IteratorSpec, IteratorSpecImpl};

verus! {

/// Whether the digits of a number ended with the byte that has to end them,
/// as far as the result `found` of reading the number tells.
pub open spec fn number_ended(found: Result<u8, Error>) -> bool {
    found is Ok || found == Err::<u8, Error>(Error::NoCodeDigitsFound) || found == Err::<
        u8,
        Error,
    >(Error::InvalidCodeValue)
}

/// What one call of the lenient reader makes of the bytes `input` that are
/// still to come, and how many of them it takes.
///
/// It gives a code where the bytes begin with the header, a color number, the
/// byte that ends it and a space. Whatever else it finds, it gives nothing,
/// and has then taken the bytes up to the one that it stumbled over.
pub open spec fn lenient(input: Seq<u8>) -> (Option<Code>, nat) {
    match header(input) {
        (Some(Ok(())), start) => {
            let rest = input.skip(start as int);
            let (found, length) = number(rest);
            if !number_ended(found) || rest.len() <= length {
                (None, start + length)
            } else if rest[length as int] != FILL {
                (None, start + length + 1)
            } else {
                match found {
                    Ok(number) if is_code_number(number) => (
                        Some(Code::of(number)),
                        start + length + 1,
                    ),
                    _ => (None, start + length + 1),
                }
            }
        },
        (_, length) => (None, length),
    }
}

/// Reads color codes from a stream of bytes, one for each call of
/// [`CodeIterator::next`], until the bytes end or are not well formed.
#[derive(Debug)]
pub struct CodeIterator<T> {
    bytes: Parser<T>,
}

impl<T> CodeIterator<T> {
    /// The reader of the codes of the stream `bytes`.
    pub closed spec fn over(bytes: T) -> Self {
        CodeIterator { bytes: Parser::over(bytes) }
    }

    /// The stream of bytes that the codes are read from.
    pub closed spec fn source(self) -> T {
        self.bytes.source()
    }
}

impl<T: Iterator<Item = u8>> Iterator for CodeIterator<T> {
    type Item = Code;

    /// Reads the next code. `None` says that the bytes have ended or that
    /// they did not hold a code.
    fn next(&mut self) -> (item: Option<Self::Item>)
        ensures
            final(self).source().obeys_prophetic_iter_laws() == old(self).source().obeys_prophetic_iter_laws(),
            old(self).source().obeys_prophetic_iter_laws() ==> {
                &&& item == lenient(old(self).source().remaining()).0
                &&& final(self).source().remaining() == old(self).source().remaining().skip(
                    lenient(old(self).source().remaining()).1 as int,
                )
            },
    {
        let ghost input = self.bytes.source().remaining();
        let ghost lawful = self.bytes.source().obeys_prophetic_iter_laws();
        let ghost rest = input.skip(2);
        let ghost length = number(rest).1 as int;
        match self.bytes.next_header() {
            Some(Ok(())) => {},
            _ => {
                return None;
            },
        }
        assert(0 <= length <= rest.len()) by {
            lemma_number_length(rest);
        }
        assert(lawful ==> rest.skip(length) =~= input.skip(2 + length));
        assert(lawful && rest.len() > length ==> rest.skip(length).skip(1) =~= input.skip(
            2 + length + 1,
        ));
        let found = self.bytes.parse_color_code();
        let number = match found {
            Ok(number) => number,
            Err(Error::NoCodeDigitsFound) => 0,
            Err(Error::InvalidCodeValue) => 0,
            Err(_) => {
                return None;
            },
        };
        match self.bytes.next_fill() {
            Some(fill) => {
                if fill != FILL {
                    return None;
                }
            },
            None => {
                return None;
            },
        }
        match Code::try_from(number) {
            Ok(code) => Some(code),
            Err(_) => None,
        }
    }
}

impl<T: Iterator<Item = u8>> IteratorSpecImpl for CodeIterator<T> {
    /// Nothing is claimed of the sequence as a whole: the contract of `next`
    /// says what every single call gives.
    open spec fn obeys_prophetic_iter_laws(&self) -> bool {
        false
    }

    open spec fn remaining(&self) -> Seq<Self::Item> {
        Seq::empty()
    }

    open spec fn will_return_none(&self) -> bool {
        false
    }

    open spec fn decrease(&self) -> Option<nat> {
        None
    }

    open spec fn initial_value_relation(&self, init: &Self) -> bool {
        true
    }

    open spec fn peek(&self, index: int) -> Option<Self::Item> {
        None
    }
}

impl<T> From<T> for CodeIterator<T> {
    fn from(bytes: T) -> (codes: Self)
        ensures
            codes.source() == bytes,
    {
        Self { bytes: Parser::from(bytes) }
    }
}

impl<T> FromSpecImpl<T> for CodeIterator<T> {
    open spec fn obeys_from_spec() -> bool {
        true
    }

    open spec fn from_spec(bytes: T) -> Self {
        CodeIterator::over(bytes)
    }
}

/// Gives the ability to read a stream of bytes code by code.
pub trait ToCodes: Iterator<Item = u8> + Sized {
    /// The codes that the bytes hold, up to the first byte that does not
    /// belong to a code.
    fn codes(self) -> (codes: CodeIterator<Self>)
        ensures
            codes.source() == self,
    ;
}

impl<T: Iterator<Item = u8>> ToCodes for T {
    fn codes(self) -> (codes: CodeIterator<Self>) {
        CodeIterator::from(self)
    }
}

} // verus!
