//! Parses line-oriented word-list text into a classified `WordList`.
//!
//! The main source holds one word per line, optionally suffixed with exactly
//! one single-character marker: `!` for a neologism or `%` for the plural of
//! an uncountable noun. A separately supplied denylist holds excluded terms,
//! one per line, compared by exact string match against the marker-stripped
//! line; denylist membership takes precedence over any marker. Three flags
//! control which of the optional buckets join the normal words when the list
//! is collapsed into a flat word collection.

use vstd::prelude::*;
use vstd::string::{StrSliceExecFns, StringExecFns};

use crate::lexicon::Lexicon;
use crate::text::{lower_of, lowered, words_contain};
use crate::veclexicon::VecLexicon;

verus! {

/// The different flags controlling excluded and included words in the list.
#[derive(Debug, Copy, Clone, Eq, PartialEq, Hash, Structural)]
pub enum Flag {
    /// Include plurals of nouns that typically don't have them.
    UncountablePlurals,
    /// Include profanities.
    Swears,
    /// Include newer words, recommended for many words that have become very
    /// standard.
    Neologisms,
}

/// The category a main-list line is classified into: exactly one per line.
pub enum WordCategory {
    /// An unannotated entry, included in every selection.
    Normal,
    /// A line carrying the trailing uncountable-plural marker `%`.
    UncountablePlural,
    /// A line carrying the trailing neologism marker `!`.
    Neologism,
    /// A line whose marker-stripped form appears in the denylist.
    Swear,
}

/// Errors from building a `WordList`.
#[derive(Debug, Copy, Clone, PartialEq, Eq)]
pub enum ParseError {
    /// A supplied text source cannot be opened or read.
    SourceUnavailable,
    /// A line cannot be interpreted as valid text under the source's declared
    /// encoding.
    DecodeFailure,
}

/// Strips one trailing carriage return, as line splitting does on a line that
/// ended in a carriage return followed by a line feed.
pub open spec fn chomp_cr(line: Seq<char>) -> Seq<char> {
    if line.len() > 0 && line.last() == '\r' {
        line.drop_last()
    } else {
        line
    }
}

/// The logical lines of a text: split at each line feed, with a carriage
/// return directly before a line feed stripped, and no empty final line for a
/// text that ends in a line terminator.
pub open spec fn spec_lines(text: Seq<char>) -> Seq<Seq<char>>
    decreases text.len(),
    via spec_lines_decreases
{
    if text.len() == 0 {
        Seq::empty()
    } else {
        match text.index_of_first('\n') {
            Some(i) => seq![chomp_cr(text.take(i))] + spec_lines(text.skip(i + 1)),
            None => seq![text],
        }
    }
}

#[via_fn]
proof fn spec_lines_decreases(text: Seq<char>) {
    if text.len() > 0 {
        text.index_of_first_ensures('\n');
    }
}

/// The line carries the trailing neologism marker.
pub open spec fn is_neologism_line(line: Seq<char>) -> bool {
    line.len() > 0 && line.last() == '!'
}

/// The line carries the trailing uncountable-plural marker.
pub open spec fn is_uncountable_line(line: Seq<char>) -> bool {
    !is_neologism_line(line) && line.len() > 0 && line.last() == '%'
}

/// The stored form of a line: the line with its one trailing marker, if any,
/// stripped.
pub open spec fn stripped_word(line: Seq<char>) -> Seq<char> {
    if is_neologism_line(line) || is_uncountable_line(line) {
        line.drop_last()
    } else {
        line
    }
}

/// The one category a line falls in, given the denylist: denylist membership
/// is checked against the marker-stripped line and takes precedence over any
/// marker.
pub open spec fn line_category(line: Seq<char>, deny: Seq<Seq<char>>) -> WordCategory {
    if deny.contains(stripped_word(line)) {
        WordCategory::Swear
    } else if is_neologism_line(line) {
        WordCategory::Neologism
    } else if is_uncountable_line(line) {
        WordCategory::UncountablePlural
    } else {
        WordCategory::Normal
    }
}

/// The marker-stripped words of the lines falling in the given category, in
/// line order.
pub open spec fn category_words(
    lines: Seq<Seq<char>>,
    deny: Seq<Seq<char>>,
    category: WordCategory,
) -> Seq<Seq<char>>
    decreases lines.len(),
{
    if lines.len() == 0 {
        Seq::empty()
    } else {
        let rest = category_words(lines.drop_last(), deny, category);
        if line_category(lines.last(), deny) == category {
            rest.push(stripped_word(lines.last()))
        } else {
            rest
        }
    }
}

/// One step of a left-to-right classification pass over the lines.
proof fn lemma_category_words_step(
    lines: Seq<Seq<char>>,
    deny: Seq<Seq<char>>,
    category: WordCategory,
    i: int,
)
    requires
        0 <= i < lines.len(),
    ensures
        category_words(lines.take(i + 1), deny, category) == if line_category(lines[i], deny)
            == category {
            category_words(lines.take(i), deny, category).push(stripped_word(lines[i]))
        } else {
            category_words(lines.take(i), deny, category)
        },
{
    assert(lines.take(i + 1).drop_last() =~= lines.take(i));
    assert(lines.take(i + 1).last() == lines[i]);
}

/// Denylist precedence: a line whose marker-stripped form appears in the
/// denylist is classified as a swear, even if it carries a neologism or
/// uncountable-plural marker.
pub proof fn lemma_denylist_precedence(line: Seq<char>, deny: Seq<Seq<char>>)
    requires
        deny.contains(stripped_word(line)),
    ensures
        line_category(line, deny) == WordCategory::Swear,
{
}

/// Classification is mutually exclusive and exhaustive: every line lands in
/// exactly one bucket, so the four buckets together hold exactly one word per
/// line.
pub proof fn lemma_classification_exhaustive(lines: Seq<Seq<char>>, deny: Seq<Seq<char>>)
    ensures
        category_words(lines, deny, WordCategory::Normal).len() + category_words(
            lines,
            deny,
            WordCategory::UncountablePlural,
        ).len() + category_words(lines, deny, WordCategory::Neologism).len() + category_words(
            lines,
            deny,
            WordCategory::Swear,
        ).len() == lines.len(),
    decreases lines.len(),
{
    if lines.len() > 0 {
        lemma_classification_exhaustive(lines.drop_last(), deny);
    }
}

/// A list of words with the ability to filter using the flags defined in
/// `Flag`. Every line of the main source lands in exactly one bucket.
pub struct WordList {
    /// Words that are included in any list.
    normal_words: Vec<String>,
    /// Plurals of uncountable nouns.
    uncountable_plurals: Vec<String>,
    /// Swears.
    swears: Vec<String>,
    /// Neologisms.
    neologisms: Vec<String>,
}

impl WordList {
    /// The unannotated words.
    pub closed spec fn normal_bucket(&self) -> Seq<Seq<char>> {
        self.normal_words.deep_view()
    }

    /// The words that carried the uncountable-plural marker.
    pub closed spec fn uncountable_bucket(&self) -> Seq<Seq<char>> {
        self.uncountable_plurals.deep_view()
    }

    /// The words whose stripped form appeared in the denylist.
    pub closed spec fn swear_bucket(&self) -> Seq<Seq<char>> {
        self.swears.deep_view()
    }

    /// The words that carried the neologism marker.
    pub closed spec fn neologism_bucket(&self) -> Seq<Seq<char>> {
        self.neologisms.deep_view()
    }

    /// Returns the list of words with the given flags applied: always the
    /// normal words, and additionally each optional bucket whose flag is
    /// present. The buckets keep their internal order, normal words first.
    /// This consumes the `WordList`.
    pub fn custom_list(self, flags: &[Flag]) -> (list: Vec<String>)
        ensures
            list.deep_view() == selected_words(self, flags@),
    {
        let WordList { normal_words, uncountable_plurals, swears, neologisms } = self;
        let mut list = normal_words;
        let mut uncountable_plurals = uncountable_plurals;
        let mut swears = swears;
        let mut neologisms = neologisms;
        let ghost base = list.deep_view();
        if flag_in(flags, Flag::UncountablePlurals) {
            list.append(&mut uncountable_plurals);
        }
        let ghost with_unc = list.deep_view();
        proof {
            if flags@.contains(Flag::UncountablePlurals) {
                assert(with_unc =~= base + self.uncountable_bucket());
            } else {
                assert(with_unc =~= base + Seq::<Seq<char>>::empty());
            }
        }
        if flag_in(flags, Flag::Swears) {
            list.append(&mut swears);
        }
        let ghost with_swears = list.deep_view();
        proof {
            if flags@.contains(Flag::Swears) {
                assert(with_swears =~= with_unc + self.swear_bucket());
            } else {
                assert(with_swears =~= with_unc + Seq::<Seq<char>>::empty());
            }
        }
        if flag_in(flags, Flag::Neologisms) {
            list.append(&mut neologisms);
        }
        proof {
            if flags@.contains(Flag::Neologisms) {
                assert(list.deep_view() =~= with_swears + self.neologism_bucket());
            } else {
                assert(list.deep_view() =~= with_swears + Seq::<Seq<char>>::empty());
            }
            assert(list.deep_view() =~= selected_words(self, flags@));
        }
        list
    }

    /// Returns the default list, with neologisms but without swears and
    /// uncountable plurals.
    pub fn default_list(self) -> (list: Vec<String>)
        ensures
            list.deep_view() == selected_words(self, seq![Flag::Neologisms]),
    {
        let mut flags: Vec<Flag> = Vec::new();
        flags.push(Flag::Neologisms);
        proof {
            assert(flags@ =~= seq![Flag::Neologisms]);
        }
        self.custom_list(flags.as_slice())
    }
}

impl From<WordList> for Vec<String> {
    /// Collapses the word list into its default selection.
    fn from(list: WordList) -> (words: Vec<String>)
        ensures
            words.deep_view() == selected_words(list, seq![Flag::Neologisms]),
    {
        list.default_list()
    }
}

impl vstd::std_specs::convert::FromSpecImpl<WordList> for Vec<String> {
    open spec fn obeys_from_spec() -> bool {
        false
    }

    closed spec fn from_spec(list: WordList) -> Vec<String> {
        vstd::pervasive::arbitrary()
    }
}

impl From<WordList> for VecLexicon {
    /// Builds a lexicon over the word list's default selection, lowercased at
    /// ingestion.
    fn from(list: WordList) -> (lexicon: VecLexicon)
        ensures
            lexicon.words() == lowered(selected_words(list, seq![Flag::Neologisms])),
    {
        VecLexicon::new(list.default_list())
    }
}

impl vstd::std_specs::convert::FromSpecImpl<WordList> for VecLexicon {
    open spec fn obeys_from_spec() -> bool {
        false
    }

    closed spec fn from_spec(list: WordList) -> VecLexicon {
        vstd::pervasive::arbitrary()
    }
}

/// The flat word collection that `custom_list` returns for the given flags:
/// the normal words, then each optional bucket whose flag is present.
pub open spec fn selected_words(list: WordList, flags: Seq<Flag>) -> Seq<Seq<char>> {
    list.normal_bucket() + (if flags.contains(Flag::UncountablePlurals) {
        list.uncountable_bucket()
    } else {
        Seq::empty()
    }) + (if flags.contains(Flag::Swears) {
        list.swear_bucket()
    } else {
        Seq::empty()
    }) + (if flags.contains(Flag::Neologisms) {
        list.neologism_bucket()
    } else {
        Seq::empty()
    })
}

/// Whether the slice of flags holds the given flag.
fn flag_in(flags: &[Flag], flag: Flag) -> (present: bool)
    ensures
        present == flags@.contains(flag),
{
    let n = flags.len();
    let mut i: usize = 0;
    while i < n
        invariant
            n == flags@.len(),
            0 <= i <= n,
            forall|j: int| 0 <= j < i ==> flags@[j] != flag,
        decreases n - i,
    {
        if flags[i] == flag {
            assert(flags@[i as int] == flag);
            return true;
        }
        i += 1;
    }
    false
}

/// Splits a text into its logical lines, exactly as `spec_lines` describes.
fn split_lines(text: &str) -> (lines: Vec<String>)
    ensures
        lines.deep_view() == spec_lines(text@),
    decreases text@.len(),
{
    let n = text.unicode_len();
    if n == 0 {
        let empty_lines: Vec<String> = Vec::new();
        proof {
            assert(empty_lines.deep_view() =~= spec_lines(text@));
        }
        return empty_lines;
    }
    let mut i: usize = 0;
    while i < n
        invariant
            n == text@.len(),
            0 <= i <= n,
            forall|j: int| 0 <= j < i ==> text@[j] != '\n',
        ensures
            0 <= i <= n,
            n == text@.len(),
            forall|j: int| 0 <= j < i ==> text@[j] != '\n',
            i < n ==> text@[i as int] == '\n',
        decreases n - i,
    {
        if text.get_char(i) == '\n' {
            break ;
        }
        i += 1;
    }
    if i == n {
        let mut lines: Vec<String> = Vec::new();
        lines.push(String::from_str(text));
        proof {
            text@.index_of_first_ensures('\n');
            if text@.contains('\n') {
                let k = choose|k: int| 0 <= k < text@.len() && text@[k] == '\n';
                assert(false);
            }
            assert(lines.deep_view() =~= seq![text@]);
            assert(spec_lines(text@) == seq![text@]);
        }
        return lines;
    }
    let line_str = if i > 0 && text.get_char(i - 1) == '\r' {
        text.substring_char(0, i - 1)
    } else {
        text.substring_char(0, i)
    };
    let first = String::from_str(line_str);
    let rest_str = text.substring_char(i + 1, n);
    proof {
        assert(rest_str@ =~= text@.skip(i + 1));
        assert(rest_str@.len() < text@.len());
    }
    let mut rest = split_lines(rest_str);
    let mut lines: Vec<String> = Vec::new();
    lines.push(first);
    lines.append(&mut rest);
    proof {
        assert(text@.contains('\n')) by {
            assert(text@[i as int] == '\n');
        }
        text@.index_of_first_ensures('\n');
        let idx = text@.index_of_first('\n')->Some_0;
        assert(text@[idx] == '\n');
        if idx < i {
            assert(false);
        }
        if idx > i {
            assert(text@[i as int] != '\n');
            assert(false);
        }
        assert(first@ == chomp_cr(text@.take(i as int))) by {
            if i > 0 && text@[i - 1] == '\r' {
                assert(first@ =~= text@.take(i as int).drop_last());
            } else {
                assert(first@ =~= text@.take(i as int));
            }
        }
        assert(lines.deep_view() =~= seq![chomp_cr(text@.take(i as int))] + spec_lines(
            text@.skip(i + 1),
        ));
        assert(spec_lines(text@) == seq![chomp_cr(text@.take(i as int))] + spec_lines(
            text@.skip(i + 1),
        ));
    }
    lines
}

/// Generates a `WordList` from the two input texts. The first one is the main
/// word list, which marks neologisms with a trailing `!` and uncountable
/// plurals with a trailing `%`; the second is the denylist. In-memory text
/// can always be read and decoded, so this never fails: every line of the
/// main text lands in exactly the bucket that `line_category` assigns it.
pub fn parse_strings(main_list: &str, swears_list: &str) -> (result: Result<WordList, ParseError>)
    ensures
        result is Ok,
        result->Ok_0.normal_bucket() == category_words(
            spec_lines(main_list@),
            spec_lines(swears_list@),
            WordCategory::Normal,
        ),
        result->Ok_0.uncountable_bucket() == category_words(
            spec_lines(main_list@),
            spec_lines(swears_list@),
            WordCategory::UncountablePlural,
        ),
        result->Ok_0.swear_bucket() == category_words(
            spec_lines(main_list@),
            spec_lines(swears_list@),
            WordCategory::Swear,
        ),
        result->Ok_0.neologism_bucket() == category_words(
            spec_lines(main_list@),
            spec_lines(swears_list@),
            WordCategory::Neologism,
        ),
{
    let lines = split_lines(main_list);
    let deny = split_lines(swears_list);
    let mut normal_words: Vec<String> = Vec::new();
    let mut uncountable_plurals: Vec<String> = Vec::new();
    let mut swears: Vec<String> = Vec::new();
    let mut neologisms: Vec<String> = Vec::new();
    let n = lines.len();
    let mut i: usize = 0;
    while i < n
        invariant
            n == lines.len(),
            0 <= i <= n,
            lines.deep_view() == spec_lines(main_list@),
            deny.deep_view() == spec_lines(swears_list@),
            normal_words.deep_view() == category_words(
                lines.deep_view().take(i as int),
                deny.deep_view(),
                WordCategory::Normal,
            ),
            uncountable_plurals.deep_view() == category_words(
                lines.deep_view().take(i as int),
                deny.deep_view(),
                WordCategory::UncountablePlural,
            ),
            swears.deep_view() == category_words(
                lines.deep_view().take(i as int),
                deny.deep_view(),
                WordCategory::Swear,
            ),
            neologisms.deep_view() == category_words(
                lines.deep_view().take(i as int),
                deny.deep_view(),
                WordCategory::Neologism,
            ),
        decreases n - i,
    {
        let ghost line_view = lines.deep_view()[i as int];
        let ghost deny_view = deny.deep_view();
        let ghost pre_normal = normal_words.deep_view();
        let ghost pre_uncountable = uncountable_plurals.deep_view();
        let ghost pre_swears = swears.deep_view();
        let ghost pre_neologisms = neologisms.deep_view();
        let line: &String = &lines[i];
        proof {
            assert(line@ == line_view);
        }
        let len = line.as_str().unicode_len();
        let is_neo = len > 0 && line.as_str().get_char(len - 1) == '!';
        let is_unc = !is_neo && len > 0 && line.as_str().get_char(len - 1) == '%';
        let word: String = if is_neo || is_unc {
            String::from_str(line.as_str().substring_char(0, len - 1))
        } else {
            line.clone()
        };
        proof {
            assert(is_neo == is_neologism_line(line_view));
            assert(is_unc == is_uncountable_line(line_view));
            if is_neo || is_unc {
                assert(word@ =~= line_view.drop_last());
            }
            assert(word@ == stripped_word(line_view));
            lemma_category_words_step(lines.deep_view(), deny_view, WordCategory::Normal, i as int);
            lemma_category_words_step(
                lines.deep_view(),
                deny_view,
                WordCategory::UncountablePlural,
                i as int,
            );
            lemma_category_words_step(lines.deep_view(), deny_view, WordCategory::Swear, i as int);
            lemma_category_words_step(
                lines.deep_view(),
                deny_view,
                WordCategory::Neologism,
                i as int,
            );
        }
        if words_contain(&deny, &word) {
            proof {
                assert(line_category(line_view, deny_view) == WordCategory::Swear);
            }
            swears.push(word);
            proof {
                assert(swears.deep_view() =~= pre_swears.push(stripped_word(line_view)));
            }
        } else if is_neo {
            proof {
                assert(line_category(line_view, deny_view) == WordCategory::Neologism);
            }
            neologisms.push(word);
            proof {
                assert(neologisms.deep_view() =~= pre_neologisms.push(stripped_word(line_view)));
            }
        } else if is_unc {
            proof {
                assert(line_category(line_view, deny_view) == WordCategory::UncountablePlural);
            }
            uncountable_plurals.push(word);
            proof {
                assert(uncountable_plurals.deep_view() =~= pre_uncountable.push(
                    stripped_word(line_view),
                ));
            }
        } else {
            proof {
                assert(line_category(line_view, deny_view) == WordCategory::Normal);
            }
            normal_words.push(word);
            proof {
                assert(normal_words.deep_view() =~= pre_normal.push(stripped_word(line_view)));
            }
        }
        i += 1;
    }
    proof {
        assert(lines.deep_view().take(n as int) =~= lines.deep_view());
    }
    Ok(WordList { normal_words, uncountable_plurals, swears, neologisms })
}

/// Round-trip: the words selected from a word list, loaded into a fresh
/// `VecLexicon` and drained by full iteration with no filters applied, are
/// exactly the words the selection alone produced — in particular the same
/// multiset. The first two hypotheses are what `VecLexicon::new` on the
/// selection and `into_words` ensure; the last asks that every selected word
/// is already lowercase (as the usual word-list sources are), since ingestion
/// case-normalizes and so would change a mixed-case word.
pub proof fn lemma_select_round_trip(
    list: WordList,
    flags: Seq<Flag>,
    lexicon: VecLexicon,
    drained: Seq<Seq<char>>,
)
    requires
        lexicon.words() == lowered(selected_words(list, flags)),
        drained == lexicon.words(),
        forall|i: int| 0 <= i < selected_words(list, flags).len() ==> lower_of(
            #[trigger] selected_words(list, flags)[i],
        ) == selected_words(list, flags)[i],
    ensures
        drained == selected_words(list, flags),
        drained.to_multiset() == selected_words(list, flags).to_multiset(),
{
    assert(lowered(selected_words(list, flags)) =~= selected_words(list, flags));
}

} // verus!
