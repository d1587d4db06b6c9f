//! What makes a word fit for a code.

use vstd::prelude::*;

verus! {

/// Whether the character is one of the capital letters `A` to `Z`.
pub open spec fn is_capital(c: char) -> bool {
    'A' <= c <= 'Z'
}

/// Whether the word is in lower case: none of its characters is a capital
/// letter `A` to `Z`. Characters outside that range count as they are, which
/// is how SQLite's `LOWER` leaves them.
pub open spec fn is_lowercase(word: Seq<char>) -> bool {
    forall|i: int| 0 <= i < word.len() ==> !is_capital(#[trigger] word[i])
}

/// Whether a word may stand in a code drawn with the length range
/// `min_length ..= max_length`: it has at least `min_length` and at most
/// `max_length` characters, and is in lower case. No word qualifies for a
/// range whose lower end is above its upper end.
pub open spec fn qualifies(word: Seq<char>, min_length: int, max_length: int) -> bool {
    &&& min_length <= word.len() <= max_length
    &&& is_lowercase(word)
}

/// Whether every word of the run qualifies for the range.
pub open spec fn all_qualify(words: Seq<Seq<char>>, min_length: int, max_length: int) -> bool {
    forall|i: int| 0 <= i < words.len() ==> qualifies(#[trigger] words[i], min_length, max_length)
}

/// Decides whether the word is in lower case.
pub fn word_is_lowercase(word: &str) -> (lower: bool)
    ensures
        lower == is_lowercase(word@),
{
    let mut lower = true;
    for c in it: word.chars()
        invariant
            it.seq() == word@,
            lower == is_lowercase(word@.take(it.index() as int)),
    {
        proof {
            let seen = word@.take(it.index() + 1);
            assert(seen == word@.take(it.index() as int).push(c));
            assert(seen[it.index() as int] == c);
        }
        if 'A' <= c && c <= 'Z' {
            lower = false;
        }
    }
    proof {
        assert(word@.take(word@.len() as int) == word@);
    }
    lower
}

/// Decides whether the word qualifies for the length range
/// `min_length ..= max_length`.
pub fn word_qualifies(word: &str, min_length: i32, max_length: i32) -> (fits: bool)
    ensures
        fits == qualifies(word@, min_length as int, max_length as int),
{
    if max_length < 0 {
        return false;
    }
    let len = word.unicode_len();
    if len > max_length as usize {
        return false;
    }
    if min_length > 0 && len < min_length as usize {
        return false;
    }
    word_is_lowercase(word)
}

} // verus!
