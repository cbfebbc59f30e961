//! Implements `Lexicon` in the most basic way, using a `Vec` to store strings.
//! This provides O(n) performance for all of the operations in the `Lexicon`
//! trait, where n is the size of the lexicon and the size of words is
//! negligible compared to the size of the lexicon.
//!
//! This lexicon is case-insensitive in storage: every word is converted to
//! lowercase at ingestion. `contains` matches the stored words exactly and
//! does not normalize its query, so callers pass lowercased queries.

use vstd::prelude::*;
use vstd::string::{StrSliceExecFns, StringExecFns};

use crate::filtering::lemma_filter_take_step;
use crate::lexicon::{
    exact_length_pred, less_length_pred, more_length_pred, only_using_pred, with_letter_pred,
    without_letter_pred, Lexicon,
};
use crate::text::{lower_of, lowercase, lowered, word_has_letter, word_uses_only, words_contain};

verus! {

/// A simple list of words.
#[derive(Debug, Clone, PartialEq, Eq, Hash)]
pub struct VecLexicon {
    /// The words in the list, all lowercase.
    words: Vec<String>,
}

impl VecLexicon {
    /// Creates a new lexicon with the given words, case-normalized to
    /// lowercase at ingestion.
    pub fn new(words: Vec<String>) -> (lexicon: VecLexicon)
        ensures
            lexicon.words() == lowered(words.deep_view()),
    {
        let n = words.len();
        let mut stored: Vec<String> = Vec::new();
        let mut i: usize = 0;
        while i < n
            invariant
                n == words.len(),
                0 <= i <= n,
                stored.deep_view() == lowered(words.deep_view().take(i as int)),
            decreases n - i,
        {
            let ghost pre = stored.deep_view();
            let word = lowercase(words[i].as_str());
            proof {
                assert(words.deep_view()[i as int] == words@[i as int]@);
                assert(word@ == lower_of(words.deep_view()[i as int]));
            }
            stored.push(word);
            proof {
                assert(stored.deep_view() =~= pre.push(lower_of(words.deep_view()[i as int])));
                assert(stored.deep_view() =~= lowered(words.deep_view().take(i + 1)));
            }
            i += 1;
        }
        proof {
            assert(words.deep_view().take(n as int) =~= words.deep_view());
        }
        VecLexicon { words: stored }
    }

    /// Consumes the lexicon and moves its surviving words out, in storage
    /// order. This is the draining form of iteration: after the call the
    /// lexicon is gone and the words live only in the returned collection.
    pub fn into_words(self) -> (words: Vec<String>)
        ensures
            words.deep_view() == self.words(),
    {
        self.words
    }
}

impl From<Vec<String>> for VecLexicon {
    fn from(words: Vec<String>) -> (lexicon: VecLexicon)
        ensures
            lexicon.words() == lowered(words.deep_view()),
    {
        VecLexicon::new(words)
    }
}

impl vstd::std_specs::convert::FromSpecImpl<Vec<String>> for VecLexicon {
    open spec fn obeys_from_spec() -> bool {
        false
    }

    closed spec fn from_spec(words: Vec<String>) -> VecLexicon {
        vstd::pervasive::arbitrary()
    }
}

impl Lexicon for VecLexicon {
    closed spec fn words(&self) -> Seq<Seq<char>> {
        self.words.deep_view()
    }

    /// Returns `true` if the word list contains the given word and `false`
    /// otherwise.
    fn contains(&self, word: &str) -> (present: bool) {
        let query = String::from_str(word);
        words_contain(&self.words, &query)
    }

    /// Keeps only the words in the list with the given letter.
    fn with_letter(&mut self, letter: char) {
        let ghost all = self.words.deep_view();
        let n = self.words.len();
        let mut kept: Vec<String> = Vec::new();
        let mut i: usize = 0;
        while i < n
            invariant
                n == self.words.len(),
                0 <= i <= n,
                self.words.deep_view() == all,
                kept.deep_view() == all.take(i as int).filter(with_letter_pred(letter)),
            decreases n - i,
        {
            let ghost pre = kept.deep_view();
            proof {
                assert(all[i as int] == self.words@[i as int]@);
                lemma_filter_take_step(all, with_letter_pred(letter), i as int);
                assert(with_letter_pred(letter)(all[i as int]) == all[i as int].contains(letter));
            }
            if word_has_letter(self.words[i].as_str(), letter) {
                kept.push(self.words[i].clone());
                proof {
                    assert(kept.deep_view() =~= pre.push(all[i as int]));
                }
            }
            i += 1;
        }
        proof {
            assert(all.take(n as int) =~= all);
        }
        self.words = kept;
    }

    /// Keeps only the words in the list without the given letter.
    fn without_letter(&mut self, letter: char) {
        let ghost all = self.words.deep_view();
        let n = self.words.len();
        let mut kept: Vec<String> = Vec::new();
        let mut i: usize = 0;
        while i < n
            invariant
                n == self.words.len(),
                0 <= i <= n,
                self.words.deep_view() == all,
                kept.deep_view() == all.take(i as int).filter(without_letter_pred(letter)),
            decreases n - i,
        {
            let ghost pre = kept.deep_view();
            proof {
                assert(all[i as int] == self.words@[i as int]@);
                lemma_filter_take_step(all, without_letter_pred(letter), i as int);
                assert(without_letter_pred(letter)(all[i as int]) == !all[i as int].contains(letter));
            }
            if !word_has_letter(self.words[i].as_str(), letter) {
                kept.push(self.words[i].clone());
                proof {
                    assert(kept.deep_view() =~= pre.push(all[i as int]));
                }
            }
            i += 1;
        }
        proof {
            assert(all.take(n as int) =~= all);
        }
        self.words = kept;
    }

    /// Keeps only the words that only contain the given letters. Words that
    /// don't use all of the given letters are kept, unlike `with_letters`.
    fn only_using_letters(&mut self, letters: &[char]) {
        let ghost all = self.words.deep_view();
        let n = self.words.len();
        let mut kept: Vec<String> = Vec::new();
        let mut i: usize = 0;
        while i < n
            invariant
                n == self.words.len(),
                0 <= i <= n,
                self.words.deep_view() == all,
                kept.deep_view() == all.take(i as int).filter(only_using_pred(letters@)),
            decreases n - i,
        {
            let ghost pre = kept.deep_view();
            proof {
                assert(all[i as int] == self.words@[i as int]@);
                lemma_filter_take_step(all, only_using_pred(letters@), i as int);
                assert(only_using_pred(letters@)(all[i as int]) == crate::lexicon::uses_only_letters(
                    all[i as int],
                    letters@,
                ));
            }
            if word_uses_only(self.words[i].as_str(), letters) {
                kept.push(self.words[i].clone());
                proof {
                    assert(kept.deep_view() =~= pre.push(all[i as int]));
                }
            }
            i += 1;
        }
        proof {
            assert(all.take(n as int) =~= all);
        }
        self.words = kept;
    }

    /// Keeps only the words of exactly the given length, in characters.
    fn with_exact_length(&mut self, length: usize) {
        let ghost all = self.words.deep_view();
        let n = self.words.len();
        let mut kept: Vec<String> = Vec::new();
        let mut i: usize = 0;
        while i < n
            invariant
                n == self.words.len(),
                0 <= i <= n,
                self.words.deep_view() == all,
                kept.deep_view() == all.take(i as int).filter(exact_length_pred(length as nat)),
            decreases n - i,
        {
            let ghost pre = kept.deep_view();
            proof {
                assert(all[i as int] == self.words@[i as int]@);
                lemma_filter_take_step(all, exact_length_pred(length as nat), i as int);
                assert(exact_length_pred(length as nat)(all[i as int]) == (all[i as int].len() == length));
            }
            if self.words[i].as_str().unicode_len() == length {
                kept.push(self.words[i].clone());
                proof {
                    assert(kept.deep_view() =~= pre.push(all[i as int]));
                }
            }
            i += 1;
        }
        proof {
            assert(all.take(n as int) =~= all);
        }
        self.words = kept;
    }

    /// Keeps only the words longer than the given length, in characters.
    fn with_more_length(&mut self, length: usize) {
        let ghost all = self.words.deep_view();
        let n = self.words.len();
        let mut kept: Vec<String> = Vec::new();
        let mut i: usize = 0;
        while i < n
            invariant
                n == self.words.len(),
                0 <= i <= n,
                self.words.deep_view() == all,
                kept.deep_view() == all.take(i as int).filter(more_length_pred(length as nat)),
            decreases n - i,
        {
            let ghost pre = kept.deep_view();
            proof {
                assert(all[i as int] == self.words@[i as int]@);
                lemma_filter_take_step(all, more_length_pred(length as nat), i as int);
                assert(more_length_pred(length as nat)(all[i as int]) == (all[i as int].len() > length));
            }
            if self.words[i].as_str().unicode_len() > length {
                kept.push(self.words[i].clone());
                proof {
                    assert(kept.deep_view() =~= pre.push(all[i as int]));
                }
            }
            i += 1;
        }
        proof {
            assert(all.take(n as int) =~= all);
        }
        self.words = kept;
    }

    /// Keeps only the words shorter than the given length, in characters.
    fn with_less_length(&mut self, length: usize) {
        let ghost all = self.words.deep_view();
        let n = self.words.len();
        let mut kept: Vec<String> = Vec::new();
        let mut i: usize = 0;
        while i < n
            invariant
                n == self.words.len(),
                0 <= i <= n,
                self.words.deep_view() == all,
                kept.deep_view() == all.take(i as int).filter(less_length_pred(length as nat)),
            decreases n - i,
        {
            let ghost pre = kept.deep_view();
            proof {
                assert(all[i as int] == self.words@[i as int]@);
                lemma_filter_take_step(all, less_length_pred(length as nat), i as int);
                assert(less_length_pred(length as nat)(all[i as int]) == (all[i as int].len() < length));
            }
            if self.words[i].as_str().unicode_len() < length {
                kept.push(self.words[i].clone());
                proof {
                    assert(kept.deep_view() =~= pre.push(all[i as int]));
                }
            }
            i += 1;
        }
        proof {
            assert(all.take(n as int) =~= all);
        }
        self.words = kept;
    }
}

} // verus!
