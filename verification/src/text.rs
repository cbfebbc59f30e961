//! Verified helpers over strings and character collections, shared by the
//! lexicon and the word-list parser.

use vstd::prelude::*;
use vstd::string::StrSliceExecFns;

use crate::lexicon::uses_only_letters;

verus! {

/// The lowercase equivalent of a character sequence, as `str::to_lowercase`
/// computes it: a fixed function of the characters alone.
pub uninterp spec fn lower_of(s: Seq<char>) -> Seq<char>;

/// Each word of the sequence, case-folded to lowercase.
pub open spec fn lowered(words: Seq<Seq<char>>) -> Seq<Seq<char>> {
    words.map_values(|w: Seq<char>| lower_of(w))
}

/// Relies on `str::to_lowercase`: returns the lowercase equivalent of the
/// string, determined by its characters alone.
#[verifier::external_body]
pub(crate) fn lowercase(word: &str) -> (r: String)
    ensures
        r@ == lower_of(word@),
{
    word.to_lowercase()
}

/// Exact string equality, specified over the character sequences.
pub fn string_eq(a: &String, b: &String) -> (r: bool)
    ensures
        r == (a@ == b@),
{
    a.eq(b)
}

/// Whether a vector of words holds the given word, by exact string match.
pub fn words_contain(words: &Vec<String>, word: &String) -> (present: bool)
    ensures
        present == words.deep_view().contains(word@),
{
    let n = words.len();
    let mut i: usize = 0;
    while i < n
        invariant
            n == words.len(),
            0 <= i <= n,
            forall|j: int| 0 <= j < i ==> words.deep_view()[j] != word@,
        decreases n - i,
    {
        if string_eq(&words[i], word) {
            assert(words.deep_view()[i as int] == word@);
            return true;
        }
        i += 1;
    }
    false
}

/// Whether the word contains at least one occurrence of the letter.
pub fn word_has_letter(word: &str, letter: char) -> (r: bool)
    ensures
        r == word@.contains(letter),
{
    let n = word.unicode_len();
    let mut i: usize = 0;
    while i < n
        invariant
            n == word@.len(),
            0 <= i <= n,
            forall|j: int| 0 <= j < i ==> word@[j] != letter,
        decreases n - i,
    {
        if word.get_char(i) == letter {
            assert(word@[i as int] == letter);
            return true;
        }
        i += 1;
    }
    false
}

/// Whether every character of the word appears in the given letters.
pub fn word_uses_only(word: &str, letters: &[char]) -> (r: bool)
    ensures
        r == uses_only_letters(word@, letters@),
{
    let n = word.unicode_len();
    let mut i: usize = 0;
    while i < n
        invariant
            n == word@.len(),
            0 <= i <= n,
            forall|j: int| 0 <= j < i ==> letters@.contains(#[trigger] word@[j]),
        decreases n - i,
    {
        if !letters_contain(letters, word.get_char(i)) {
            assert(!letters@.contains(word@[i as int]));
            return false;
        }
        i += 1;
    }
    true
}

/// Whether the slice of letters holds the given letter.
pub fn letters_contain(letters: &[char], letter: char) -> (r: bool)
    ensures
        r == letters@.contains(letter),
{
    let n = letters.len();
    let mut i: usize = 0;
    while i < n
        invariant
            n == letters@.len(),
            0 <= i <= n,
            forall|j: int| 0 <= j < i ==> letters@[j] != letter,
        decreases n - i,
    {
        if letters[i] == letter {
            assert(letters@[i as int] == letter);
            return true;
        }
        i += 1;
    }
    false
}

} // verus!
