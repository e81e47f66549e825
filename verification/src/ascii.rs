//! Bytes as text: every byte stands for the character with its number.
use vstd::prelude::*;

verus! {

/// `String::push` appends the character to the end of the string: the text
/// afterwards is the text before, followed by `ch`.
pub assume_specification[ String::push ](text: &mut String, ch: char)
    ensures
        final(text)@ == old(text)@.push(ch),
;

/// The characters that `bytes` stand for, one for one.
pub open spec fn chars(bytes: Seq<u8>) -> Seq<char> {
    Seq::new(bytes.len(), |i: int| bytes[i] as char)
}

/// Appends to `text` the characters that `bytes` stand for.
pub fn push_bytes(text: &mut String, bytes: &Vec<u8>)
    ensures
        final(text)@ == old(text)@ + chars(bytes@),
{
    let mut i: usize = 0;
    while i < bytes.len()
        invariant
            i <= bytes.len(),
            text@ == old(text)@ + chars(bytes@.take(i as int)),
        decreases bytes.len() - i,
    {
        text.push(bytes[i] as char);
        proof {
            assert(chars(bytes@.take(i + 1)) =~= chars(bytes@.take(i as int)).push(
                bytes@[i as int] as char,
            ));
            assert(old(text)@ + chars(bytes@.take(i as int)).push(bytes@[i as int] as char)
                =~= (old(text)@ + chars(bytes@.take(i as int))).push(bytes@[i as int] as char));
        }
        i += 1;
    }
    proof {
        assert(bytes@.take(bytes.len() as int) =~= bytes@);
    }
}

/// The text that `bytes` stand for.
pub fn to_text(bytes: &Vec<u8>) -> (text: String)
    ensures
        text@ == chars(bytes@),
{
    let mut text = String::new();
    push_bytes(&mut text, bytes);
    proof {
        assert(Seq::<char>::empty() + chars(bytes@) =~= chars(bytes@));
    }
    text
}

} // verus!
