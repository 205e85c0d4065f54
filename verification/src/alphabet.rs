//! The table that turns a draw into one printable character.

use vstd::prelude::*;

verus! {

/// The symbols in table order: the digits, the upper-case letters, the
/// lower-case letters.
pub open spec fn alphabet() -> Seq<char> {
    "0123456789ABCDEFGHIJKLMNOPQRSTUVWXYZabcdefghijklmnopqrstuvwxyz"@
}

/// The character that stands for a draw: the table entry at the draw's
/// remainder by the table's length.
pub open spec fn symbol(output: u16) -> char {
    alphabet()[output as int % 62]
}

/// The characters that stand for a sequence of draws, in the same order.
pub open spec fn encode_all(draws: Seq<u16>) -> Seq<char> {
    Seq::new(draws.len(), |i: int| symbol(draws[i]))
}

/// The table has 62 entries, so every draw has a symbol.
pub proof fn lemma_alphabet_len()
    ensures
        alphabet().len() == 62,
{
    reveal_strlit("0123456789ABCDEFGHIJKLMNOPQRSTUVWXYZabcdefghijklmnopqrstuvwxyz");
}

/// `String::push` of std: appends one character to the end of the string.
pub assume_specification[ String::push ](s: &mut String, ch: char)
    ensures
        final(s)@ == old(s)@.push(ch),
;

/// The character that stands for one draw.
pub fn encode(output: u16) -> (c: char)
    ensures
        c == symbol(output),
{
    let table: &str = "0123456789ABCDEFGHIJKLMNOPQRSTUVWXYZabcdefghijklmnopqrstuvwxyz";
    proof {
        reveal_strlit("0123456789ABCDEFGHIJKLMNOPQRSTUVWXYZabcdefghijklmnopqrstuvwxyz");
    }
    let i: usize = (output % 62) as usize;
    table.get_char(i)
}

/// The text that stands for the given draws, one character each, in order.
pub fn encode_outputs(draws: &[u16]) -> (text: String)
    ensures
        text@ == encode_all(draws@),
{
    let mut text: String = String::new();
    let mut i: usize = 0;
    while i < draws.len()
        invariant
            i <= draws.len(),
            text@ =~= encode_all(draws@.subrange(0, i as int)),
        decreases draws.len() - i,
    {
        let c: char = encode(draws[i]);
        text.push(c);
        i = i + 1;
    }
    proof {
        assert(draws@.subrange(0, i as int) =~= draws@);
    }
    text
}

/// The characters of a text, one entry each.
pub fn chars_of(text: &str) -> (v: Vec<char>)
    ensures
        v@ == text@,
{
    let n: usize = text.unicode_len();
    let mut v: Vec<char> = Vec::new();
    let mut i: usize = 0;
    while i < n
        invariant
            i <= n,
            n == text@.len(),
            v@ =~= text@.subrange(0, i as int),
        decreases n - i,
    {
        let c: char = text.get_char(i);
        v.push(c);
        i = i + 1;
    }
    proof {
        assert(text@.subrange(0, i as int) =~= text@);
    }
    v
}

} // verus!
