//! `Lexicon` is the basic trait that powers the library, describing a set of
//! words that can be filtered in various ways. Each operation's contract pins
//! the result down exactly: the new word sequence is the old one filtered by
//! the operation's predicate.

use vstd::prelude::*;

use crate::filtering::{
    lemma_filter_commutes, lemma_filter_compose, lemma_filter_everything, lemma_filter_idempotent,
    lemma_filter_monotonic,
};

verus! {

/// The word contains at least one occurrence of the letter.
pub open spec fn has_letter(word: Seq<char>, letter: char) -> bool {
    word.contains(letter)
}

/// Every character of the word appears in the given letter collection. The
/// word need not use all given letters; duplicate letters are inert.
pub open spec fn uses_only_letters(word: Seq<char>, letters: Seq<char>) -> bool {
    forall|i: int| 0 <= i < word.len() ==> letters.contains(#[trigger] word[i])
}

/// The word contains every one of the given letters.
pub open spec fn has_all_letters(word: Seq<char>, letters: Seq<char>) -> bool {
    forall|i: int| 0 <= i < letters.len() ==> word.contains(#[trigger] letters[i])
}

/// The word contains none of the given letters.
pub open spec fn has_no_letters(word: Seq<char>, letters: Seq<char>) -> bool {
    forall|i: int| 0 <= i < letters.len() ==> !word.contains(#[trigger] letters[i])
}

/// The predicate that `with_letter` retains by.
pub open spec fn with_letter_pred(letter: char) -> spec_fn(Seq<char>) -> bool {
    |w: Seq<char>| has_letter(w, letter)
}

/// The predicate that `without_letter` retains by.
pub open spec fn without_letter_pred(letter: char) -> spec_fn(Seq<char>) -> bool {
    |w: Seq<char>| !has_letter(w, letter)
}

/// The predicate that `only_using_letters` retains by.
pub open spec fn only_using_pred(letters: Seq<char>) -> spec_fn(Seq<char>) -> bool {
    |w: Seq<char>| uses_only_letters(w, letters)
}

/// The predicate that `with_letters` retains by.
pub open spec fn all_letters_pred(letters: Seq<char>) -> spec_fn(Seq<char>) -> bool {
    |w: Seq<char>| has_all_letters(w, letters)
}

/// The predicate that `without_letters` retains by.
pub open spec fn no_letters_pred(letters: Seq<char>) -> spec_fn(Seq<char>) -> bool {
    |w: Seq<char>| has_no_letters(w, letters)
}

/// The predicate that `with_exact_length` retains by. Length is measured in
/// characters (Unicode scalar values), this crate's string-length unit.
pub open spec fn exact_length_pred(length: nat) -> spec_fn(Seq<char>) -> bool {
    |w: Seq<char>| w.len() == length
}

/// The predicate that `with_more_length` retains by.
pub open spec fn more_length_pred(length: nat) -> spec_fn(Seq<char>) -> bool {
    |w: Seq<char>| w.len() > length
}

/// The predicate that `with_less_length` retains by.
pub open spec fn less_length_pred(length: nat) -> spec_fn(Seq<char>) -> bool {
    |w: Seq<char>| w.len() < length
}

/// Describes a set of strings that is queryable for specific criteria.
/// Depending on the exact implementation, different operations will be faster
/// or slower.
///
/// The abstract state of an implementation is the sequence of its stored
/// words, given by `words()`. `contains` performs an exact match and does not
/// normalize its argument, so for implementations that store lowercase only
/// (such as `VecLexicon`, which lowercases at ingestion) callers should pass
/// already-lowercased queries.
pub trait Lexicon: Sized {
    /// The stored words, each as its sequence of characters.
    spec fn words(&self) -> Seq<Seq<char>>;

    /// Returns `true` if the lexicon contains the given value and `false`
    /// otherwise.
    fn contains(&self, word: &str) -> (present: bool)
        ensures
            present == self.words().contains(word@),
    ;

    /// Keeps only the words in the `Lexicon` that have the given letter.
    fn with_letter(&mut self, letter: char)
        ensures
            final(self).words() == old(self).words().filter(with_letter_pred(letter)),
    ;

    /// Removes any words from the `Lexicon` that have the given letter.
    fn without_letter(&mut self, letter: char)
        ensures
            final(self).words() == old(self).words().filter(without_letter_pred(letter)),
    ;

    /// Keeps only the words in the `Lexicon` that are formed solely from the
    /// letters passed in. Different from `with_letters` in that, here, words
    /// need not have all of the letters from the input list: they just can't
    /// have any letters from outside of the list.
    fn only_using_letters(&mut self, letters: &[char])
        ensures
            final(self).words() == old(self).words().filter(only_using_pred(letters@)),
    ;

    /// Keeps only the words in the `Lexicon` that have all of the given
    /// letters. Implemented via chained `with_letter()` calls by default.
    /// Different from `only_using_letters` in that, in this method, the
    /// returned words must contain all of the letters given.
    fn with_letters(&mut self, letters: &[char])
        ensures
            final(self).words() == old(self).words().filter(all_letters_pred(letters@)),
    {
        let ghost initial = self.words();
        let n = letters.len();
        let mut i: usize = 0;
        proof {
            lemma_all_letters_none(initial, letters@);
        }
        while i < n
            invariant
                n == letters@.len(),
                0 <= i <= n,
                self.words() == initial.filter(all_letters_pred(letters@.take(i as int))),
            decreases n - i,
        {
            self.with_letter(letters[i]);
            proof {
                lemma_all_letters_step(initial, letters@, i as int);
            }
            i += 1;
        }
        proof {
            assert(letters@.take(n as int) =~= letters@);
        }
    }

    /// Removes all words in the `Lexicon` that have any of the given letters.
    /// Implemented via chained `without_letter()` calls by default.
    fn without_letters(&mut self, letters: &[char])
        ensures
            final(self).words() == old(self).words().filter(no_letters_pred(letters@)),
    {
        let ghost initial = self.words();
        let n = letters.len();
        let mut i: usize = 0;
        proof {
            lemma_no_letters_none(initial, letters@);
        }
        while i < n
            invariant
                n == letters@.len(),
                0 <= i <= n,
                self.words() == initial.filter(no_letters_pred(letters@.take(i as int))),
            decreases n - i,
        {
            self.without_letter(letters[i]);
            proof {
                lemma_no_letters_step(initial, letters@, i as int);
            }
            i += 1;
        }
        proof {
            assert(letters@.take(n as int) =~= letters@);
        }
    }

    /// Keeps only the words in the `Lexicon` that have exactly the given
    /// length. Length is measured in characters (Unicode scalar values), not
    /// in bytes, so the exact interpretation can vary for some Unicode
    /// strings.
    fn with_exact_length(&mut self, length: usize)
        ensures
            final(self).words() == old(self).words().filter(exact_length_pred(length as nat)),
    ;

    /// Keeps only the words in the `Lexicon` that are longer than the given
    /// length, measured in characters (Unicode scalar values).
    fn with_more_length(&mut self, length: usize)
        ensures
            final(self).words() == old(self).words().filter(more_length_pred(length as nat)),
    ;

    /// Keeps only the words in the `Lexicon` that are shorter than the given
    /// length, measured in characters (Unicode scalar values).
    fn with_less_length(&mut self, length: usize)
        ensures
            final(self).words() == old(self).words().filter(less_length_pred(length as nat)),
    ;
}

/// Demanding all of no letters keeps every word.
proof fn lemma_all_letters_none(words: Seq<Seq<char>>, letters: Seq<char>)
    ensures
        words.filter(all_letters_pred(letters.take(0))) == words,
{
    assert(letters.take(0).len() == 0);
    assert(forall|i: int| 0 <= i < words.len() ==> all_letters_pred(letters.take(0))(
        #[trigger] words[i],
    ));
    lemma_filter_everything(words, all_letters_pred(letters.take(0)));
}

/// Excluding none of no letters keeps every word.
proof fn lemma_no_letters_none(words: Seq<Seq<char>>, letters: Seq<char>)
    ensures
        words.filter(no_letters_pred(letters.take(0))) == words,
{
    assert(letters.take(0).len() == 0);
    assert(forall|i: int| 0 <= i < words.len() ==> no_letters_pred(letters.take(0))(
        #[trigger] words[i],
    ));
    lemma_filter_everything(words, no_letters_pred(letters.take(0)));
}

/// Demanding one more letter refines the `with_letters` filter by one
/// `with_letter` pass.
proof fn lemma_all_letters_step(words: Seq<Seq<char>>, letters: Seq<char>, i: int)
    requires
        0 <= i < letters.len(),
    ensures
        words.filter(all_letters_pred(letters.take(i))).filter(with_letter_pred(letters[i]))
            == words.filter(all_letters_pred(letters.take(i + 1))),
{
    let p = all_letters_pred(letters.take(i));
    let q = with_letter_pred(letters[i]);
    let both = all_letters_pred(letters.take(i + 1));
    assert forall|w: Seq<char>| #[trigger] both(w) == (p(w) && q(w)) by {
        if p(w) && q(w) {
            assert forall|j: int| 0 <= j < i + 1 implies w.contains(
                #[trigger] letters.take(i + 1)[j],
            ) by {
                if j < i {
                    assert(letters.take(i + 1)[j] == letters.take(i)[j]);
                } else {
                    assert(letters.take(i + 1)[j] == letters[i]);
                }
            }
        }
        if both(w) {
            assert forall|j: int| 0 <= j < i implies w.contains(#[trigger] letters.take(i)[j]) by {
                assert(letters.take(i + 1)[j] == letters.take(i)[j]);
                assert(w.contains(letters.take(i + 1)[j]));
            }
            assert(w.contains(letters.take(i + 1)[i]));
            assert(letters.take(i + 1)[i] == letters[i]);
        }
    }
    lemma_filter_compose(words, p, q, both);
}

/// Excluding one more letter refines the `without_letters` filter by one
/// `without_letter` pass.
proof fn lemma_no_letters_step(words: Seq<Seq<char>>, letters: Seq<char>, i: int)
    requires
        0 <= i < letters.len(),
    ensures
        words.filter(no_letters_pred(letters.take(i))).filter(without_letter_pred(letters[i]))
            == words.filter(no_letters_pred(letters.take(i + 1))),
{
    let p = no_letters_pred(letters.take(i));
    let q = without_letter_pred(letters[i]);
    let both = no_letters_pred(letters.take(i + 1));
    assert forall|w: Seq<char>| #[trigger] both(w) == (p(w) && q(w)) by {
        if p(w) && q(w) {
            assert forall|j: int| 0 <= j < i + 1 implies !w.contains(
                #[trigger] letters.take(i + 1)[j],
            ) by {
                if j < i {
                    assert(letters.take(i + 1)[j] == letters.take(i)[j]);
                } else {
                    assert(letters.take(i + 1)[j] == letters[i]);
                }
            }
        }
        if both(w) {
            assert forall|j: int| 0 <= j < i implies !w.contains(#[trigger] letters.take(i)[j]) by {
                assert(letters.take(i + 1)[j] == letters.take(i)[j]);
                assert(!w.contains(letters.take(i + 1)[j]));
            }
            assert(!w.contains(letters.take(i + 1)[i]));
            assert(letters.take(i + 1)[i] == letters[i]);
        }
    }
    lemma_filter_compose(words, p, q, both);
}

/// Idempotence: applying the same filter predicate twice in succession yields
/// the same result as applying it once.
pub proof fn lemma_filter_twice(words: Seq<Seq<char>>, pred: spec_fn(Seq<char>) -> bool)
    ensures
        words.filter(pred).filter(pred) == words.filter(pred),
{
    lemma_filter_idempotent(words, pred);
}

/// Idempotence of `with_letter`: a second pass with the same letter changes
/// nothing further.
pub proof fn lemma_with_letter_idempotent(words: Seq<Seq<char>>, letter: char)
    ensures
        words.filter(with_letter_pred(letter)).filter(with_letter_pred(letter)) == words.filter(
            with_letter_pred(letter),
        ),
{
    lemma_filter_idempotent(words, with_letter_pred(letter));
}

/// Monotonicity: every filter operation leaves at most as many words as it
/// found, and every surviving word was present before the call.
pub proof fn lemma_filter_shrinks(words: Seq<Seq<char>>, pred: spec_fn(Seq<char>) -> bool)
    ensures
        words.filter(pred).len() <= words.len(),
        forall|i: int| 0 <= i < words.filter(pred).len() ==> words.contains(
            #[trigger] words.filter(pred)[i],
        ),
{
    lemma_filter_monotonic(words, pred);
}

/// Commutativity of independent filters: applying two filter predicates in
/// either order yields the same final word sequence.
pub proof fn lemma_filters_commute(
    words: Seq<Seq<char>>,
    pred1: spec_fn(Seq<char>) -> bool,
    pred2: spec_fn(Seq<char>) -> bool,
)
    ensures
        words.filter(pred1).filter(pred2) == words.filter(pred2).filter(pred1),
{
    lemma_filter_commutes(words, pred1, pred2);
}

/// Commutativity of `with_letter`: filtering by letter `a` and then by letter
/// `b` yields the same final set as the reverse order.
pub proof fn lemma_with_letter_commutes(words: Seq<Seq<char>>, a: char, b: char)
    ensures
        words.filter(with_letter_pred(a)).filter(with_letter_pred(b)) == words.filter(
            with_letter_pred(b),
        ).filter(with_letter_pred(a)),
{
    lemma_filter_commutes(words, with_letter_pred(a), with_letter_pred(b));
}

} // verus!
