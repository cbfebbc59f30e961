use lexi::Lexicon;
use lexi::VecLexicon;

fn words(list: &[&str]) -> Vec<String> {
    list.iter().map(|w| String::from(*w)).collect()
}

fn drained(lexicon: VecLexicon) -> Vec<String> {
    lexicon.into_words()
}

#[test]
fn it_works() {
    assert_eq!(2 + 2, 4);
}

#[test]
fn contains_is_exact_match() {
    let lexicon = VecLexicon::new(words(&["apple", "pea"]));
    assert!(lexicon.contains("apple"));
    assert!(lexicon.contains("pea"));
    assert!(!lexicon.contains("Apple"));
    assert!(!lexicon.contains("pear"));
    assert!(!lexicon.contains(""));
}

#[test]
fn ingestion_lowercases_stored_words() {
    let lexicon = VecLexicon::new(words(&["ApPlE", "Pea", "dog"]));
    assert_eq!(lexicon.into_words(), words(&["apple", "pea", "dog"]));
}

#[test]
fn queries_are_not_normalized() {
    let lexicon = VecLexicon::new(words(&["Apple"]));
    assert!(lexicon.contains("apple"));
    assert!(!lexicon.contains("Apple"));
}

#[test]
fn contains_on_empty_lexicon_is_false() {
    let lexicon = VecLexicon::new(Vec::new());
    assert!(!lexicon.contains("anything"));
}

#[test]
fn with_letter_keeps_only_matching_words() {
    let mut lexicon = VecLexicon::new(words(&["apple", "pea", "dog"]));
    lexicon.with_letter('p');
    assert_eq!(drained(lexicon), words(&["apple", "pea"]));
}

#[test]
fn without_letter_drops_matching_words() {
    let mut lexicon = VecLexicon::new(words(&["apple", "pea", "dog"]));
    lexicon.without_letter('a');
    assert_eq!(drained(lexicon), words(&["dog"]));
}

#[test]
fn filter_twice_changes_nothing_further() {
    let mut once = VecLexicon::new(words(&["apple", "pea", "dog", "sky"]));
    once.with_letter('a');
    let mut twice = VecLexicon::new(words(&["apple", "pea", "dog", "sky"]));
    twice.with_letter('a');
    twice.with_letter('a');
    assert_eq!(once, twice);
    assert_eq!(drained(twice), words(&["apple", "pea"]));
}

#[test]
fn filters_are_monotonic() {
    let start = words(&["apple", "pea", "dog", "sky"]);
    let mut lexicon = VecLexicon::new(start.clone());
    lexicon.with_letter('p');
    let survivors = drained(lexicon);
    assert!(survivors.len() <= start.len());
    for word in &survivors {
        assert!(start.contains(word));
    }
}

#[test]
fn independent_filters_commute() {
    let start = words(&["ab", "a", "b", "ba", "c"]);
    let mut first_a = VecLexicon::new(start.clone());
    first_a.with_letter('a');
    first_a.with_letter('b');
    let mut first_b = VecLexicon::new(start);
    first_b.with_letter('b');
    first_b.with_letter('a');
    assert_eq!(first_a, first_b);
    assert_eq!(drained(first_b), words(&["ab", "ba"]));
}

#[test]
fn only_using_letters_differs_from_with_letters() {
    let letters = ['a', 'p', 'l', 'e'];
    let mut only = VecLexicon::new(words(&["apple", "pea", "apples"]));
    only.only_using_letters(&letters);
    assert_eq!(drained(only), words(&["apple", "pea"]));

    let mut all = VecLexicon::new(words(&["apple", "pea", "apples"]));
    all.with_letters(&letters);
    assert_eq!(drained(all), words(&["apple", "apples"]));
}

#[test]
fn with_letters_requires_every_letter() {
    let mut lexicon = VecLexicon::new(words(&["apple", "pea", "leap", "pale"]));
    lexicon.with_letters(&['a', 'p', 'l', 'e']);
    assert_eq!(drained(lexicon), words(&["apple", "leap", "pale"]));
}

#[test]
fn without_letters_drops_any_match() {
    let mut lexicon = VecLexicon::new(words(&["apple", "dog", "sky", "pea"]));
    lexicon.without_letters(&['a', 'o']);
    assert_eq!(drained(lexicon), words(&["sky"]));
}

#[test]
fn length_filters_compare_as_stated() {
    let mut exact = VecLexicon::new(words(&["a", "bb", "ccc"]));
    exact.with_exact_length(2);
    assert_eq!(drained(exact), words(&["bb"]));

    let mut more = VecLexicon::new(words(&["a", "bb", "ccc"]));
    more.with_more_length(1);
    assert_eq!(drained(more), words(&["bb", "ccc"]));

    let mut less = VecLexicon::new(words(&["a", "bb", "ccc"]));
    less.with_less_length(3);
    assert_eq!(drained(less), words(&["a", "bb"]));
}

#[test]
fn filtering_to_empty_is_not_an_error() {
    let mut lexicon = VecLexicon::new(words(&["apple", "pea"]));
    lexicon.with_letter('z');
    assert!(!lexicon.contains("apple"));
    assert_eq!(drained(lexicon), words(&[]));
}

#[test]
fn chained_filters_narrow_like_a_puzzle_query() {
    let mut lexicon = VecLexicon::new(words(&[
        "doughy", "bought", "dough", "hob", "body", "zebra", "good",
    ]));
    lexicon.only_using_letters(&['d', 'o', 'u', 'g', 'h', 'b', 'y']);
    lexicon.with_letter('o');
    lexicon.with_more_length(3);
    assert_eq!(drained(lexicon), words(&["doughy", "dough", "body", "good"]));
}

#[test]
fn from_vec_matches_new() {
    let lexicon = VecLexicon::from(words(&["apple"]));
    assert_eq!(lexicon, VecLexicon::new(words(&["apple"])));
}

#[test]
fn into_words_returns_storage_in_order() {
    let lexicon = VecLexicon::new(words(&["c", "a", "b"]));
    assert_eq!(lexicon.into_words(), words(&["c", "a", "b"]));
}
