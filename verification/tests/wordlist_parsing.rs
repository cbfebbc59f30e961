use lexi::wordlist::{parse_strings, Flag};
use lexi::Lexicon;
use lexi::VecLexicon;

fn words(list: &[&str]) -> Vec<String> {
    list.iter().map(|w| String::from(*w)).collect()
}

#[test]
fn classification_covers_every_line() {
    let parsed = parse_strings("apple\nacnes%\nblogger!", "").unwrap();
    assert_eq!(parsed.default_list(), words(&["apple", "blogger"]));

    let parsed = parse_strings("apple\nacnes%\nblogger!", "").unwrap();
    assert_eq!(
        parsed.custom_list(&[Flag::UncountablePlurals]),
        words(&["apple", "acnes"])
    );
}

#[test]
fn denylist_takes_precedence_over_markers() {
    let parsed = parse_strings("fuck!", "fuck").unwrap();
    assert_eq!(parsed.default_list(), words(&[]));

    let parsed = parse_strings("fuck!", "fuck").unwrap();
    assert_eq!(parsed.custom_list(&[Flag::Swears]), words(&["fuck"]));
}

#[test]
fn flag_selection_controls_membership() {
    let main = "apple\nfuck\nblogger!\nacnes%";
    let deny = "fuck";

    let first = VecLexicon::new(parse_strings(main, deny).unwrap().default_list());
    assert!(first.contains("apple"));
    assert!(!first.contains("fuck"));
    assert!(first.contains("blogger"));
    assert!(!first.contains("acnes"));
    assert!(!first.contains("asdkflj"));

    let second = VecLexicon::new(
        parse_strings(main, deny)
            .unwrap()
            .custom_list(&[Flag::UncountablePlurals, Flag::Swears]),
    );
    assert!(second.contains("apple"));
    assert!(second.contains("fuck"));
    assert!(!second.contains("blogger"));
    assert!(second.contains("acnes"));
    assert!(!second.contains("asdkflj"));
}

#[test]
fn selection_round_trips_through_a_lexicon() {
    let flags = [Flag::UncountablePlurals, Flag::Neologisms];
    let selected = parse_strings("apple\nacnes%\nblogger!\npea", "")
        .unwrap()
        .custom_list(&flags);
    let reloaded = VecLexicon::new(selected.clone()).into_words();
    assert_eq!(reloaded, selected);
    assert_eq!(reloaded, words(&["apple", "pea", "acnes", "blogger"]));
}

#[test]
fn markers_are_stripped_before_storage() {
    let parsed = parse_strings("run!\nwalk%\nsit", "").unwrap();
    let all = parsed.custom_list(&[Flag::UncountablePlurals, Flag::Swears, Flag::Neologisms]);
    assert_eq!(all, words(&["sit", "walk", "run"]));
}

#[test]
fn markers_are_stripped_before_denylist_comparison() {
    let parsed = parse_strings("bad!\nworse%", "bad\nworse").unwrap();
    assert_eq!(parsed.default_list(), words(&[]));

    let parsed = parse_strings("bad!\nworse%", "bad\nworse").unwrap();
    assert_eq!(parsed.custom_list(&[Flag::Swears]), words(&["bad", "worse"]));
}

#[test]
fn only_the_last_marker_is_stripped() {
    let parsed = parse_strings("odd%!\neven!%", "").unwrap();
    let all = parsed.custom_list(&[Flag::UncountablePlurals, Flag::Neologisms]);
    assert_eq!(all, words(&["even!", "odd%"]));
}

#[test]
fn crlf_line_endings_are_stripped() {
    let parsed = parse_strings("apple\r\nblogger!\r\n", "").unwrap();
    assert_eq!(parsed.default_list(), words(&["apple", "blogger"]));
}

#[test]
fn empty_sources_give_empty_lists() {
    let parsed = parse_strings("", "").unwrap();
    assert_eq!(
        parsed.custom_list(&[Flag::UncountablePlurals, Flag::Swears, Flag::Neologisms]),
        words(&[])
    );
}

#[test]
fn parsing_in_memory_text_never_fails() {
    assert!(parse_strings("apple", "bad").is_ok());
    assert!(parse_strings("", "").is_ok());
}

#[test]
fn from_wordlist_uses_the_default_selection() {
    let parsed = parse_strings("apple\nacnes%\nblogger!", "").unwrap();
    let as_words: Vec<String> = Vec::from(parsed);
    assert_eq!(as_words, words(&["apple", "blogger"]));

    let parsed = parse_strings("apple\nacnes%\nblogger!", "").unwrap();
    let lexicon = VecLexicon::from(parsed);
    assert!(lexicon.contains("apple"));
    assert!(lexicon.contains("blogger"));
    assert!(!lexicon.contains("acnes"));
}

#[test]
fn duplicate_words_are_kept() {
    let parsed = parse_strings("apple\napple", "").unwrap();
    assert_eq!(parsed.default_list(), words(&["apple", "apple"]));
}
