//! Comparing and measuring pieces of text.

use vstd::prelude::*;

verus! {

/// Whether two pieces of text are the same sequence of characters.
pub fn same_text(a: &str, b: &str) -> (same: bool)
    ensures
        same == (a@ == b@),
{
    let left: String = a.to_owned();
    let right: String = b.to_owned();
    left == right
}

/// Whether a character is white space, as Unicode defines it: the
/// characters from tab to carriage return, the space, the next-line
/// control, the no-break space and the spaces and separators of the
/// general punctuation and neighbouring blocks.
pub open spec fn is_space(c: char) -> bool {
    let code = c as u32;
    ||| 0x0009 <= code <= 0x000d
    ||| code == 0x0020
    ||| code == 0x0085
    ||| code == 0x00a0
    ||| code == 0x1680
    ||| 0x2000 <= code <= 0x200a
    ||| code == 0x2028
    ||| code == 0x2029
    ||| code == 0x202f
    ||| code == 0x205f
    ||| code == 0x3000
}

/// The number of words among the first `count` characters of a text: the
/// number of characters that are no white space and stand at the start of
/// the text or after white space.
pub open spec fn words_in(text: Seq<char>, count: nat) -> nat
    decreases count,
{
    if count == 0 {
        0
    } else {
        let before = words_in(text, (count - 1) as nat);
        let starts_word = !is_space(text[count - 1]) && (count == 1 || is_space(text[count - 2]));
        if starts_word {
            before + 1
        } else {
            before
        }
    }
}

/// Whether a character is white space.
pub fn is_whitespace(c: char) -> (space: bool)
    ensures
        space == is_space(c),
{
    let code: u32 = c as u32;
    (0x0009 <= code && code <= 0x000d) || code == 0x0020 || code == 0x0085 || code == 0x00a0
        || code == 0x1680 || (0x2000 <= code && code <= 0x200a) || code == 0x2028 || code
        == 0x2029 || code == 0x202f || code == 0x205f || code == 0x3000
}

/// The number of words in a text, where words are what white space
/// separates.
pub fn word_count_simd(text: &str) -> (count: usize)
    ensures
        count == words_in(text@, text@.len()),
{
    let length: usize = text.unicode_len();
    let mut count: usize = 0;
    let mut after_space: bool = true;
    let ghost mut seen: nat = 0;
    for c in iter: text.chars()
        invariant
            iter.seq() == text@,
            text@.len() == length,
            seen == iter.index(),
            count == words_in(text@, seen),
            count <= seen,
            after_space == (seen == 0 || is_space(text@[seen - 1])),
    {
        let space: bool = is_whitespace(c);
        if !space && after_space {
            count = count + 1;
        }
        after_space = space;
        proof {
            seen = seen + 1;
        }
    }
    count
}

/// The number of words in a text, where words are what white space
/// separates.
pub fn word_count_neon(text: &str) -> (count: usize)
    ensures
        count == words_in(text@, text@.len()),
{
    word_count_simd(text)
}

} // verus!
