use soy_stemmer::filter::{
    filter_remove_stopwords, filter_remove_stopwords_and_stem, filter_stem, new_filter, Filter,
};
use soy_stemmer::lang::FilterError;

fn words(ws: &[&str]) -> Vec<String> {
    ws.iter().map(|w| w.to_string()).collect()
}

fn english(stopwords: &[&str]) -> Filter {
    new_filter("en", words(stopwords)).expect("en is a supported language")
}

#[test]
fn s1_stem_lowercases_then_stems() {
    let f = english(&["the", "and", "of"]);
    let out = filter_stem(&f, words(&["Running", "Jumps", "THE"]));
    assert_eq!(out, words(&["run", "jump", "the"]));
}

#[test]
fn s2_remove_stopwords_drops_matches_in_any_case() {
    let f = english(&["the", "and", "of"]);
    let out = filter_remove_stopwords(&f, words(&["The", "quick", "AND", "fox"]));
    assert_eq!(out, words(&["quick", "fox"]));
}

#[test]
fn s3_remove_stopwords_and_stem() {
    let f = english(&["the", "and", "of"]);
    let out = filter_remove_stopwords_and_stem(&f, words(&["The", "running", "foxes"]));
    assert_eq!(out, words(&["run", "fox"]));
}

#[test]
fn s4_empty_stopword_list_never_drops() {
    let f = english(&[]);
    let out = filter_remove_stopwords_and_stem(&f, words(&["Cats"]));
    assert_eq!(out, words(&["cat"]));
}

#[test]
fn s5_unknown_language_is_rejected() {
    match new_filter("zz", words(&[])) {
        Ok(_) => panic!("zz must not be accepted"),
        Err(FilterError::UnsupportedLanguage(code)) => {
            assert_eq!(code, "zz");
        }
    }
}

#[test]
fn s6_trailing_space_prevents_a_match() {
    let f = english(&["Hello"]);
    let out = filter_remove_stopwords(&f, words(&["hello", "HELLO", "Hello "]));
    // Only the third token survives: its trailing space keeps its lowercase
    // form out of the stop-word set.  Survivors come out lowercased, as with
    // every operation.
    assert_eq!(out, words(&["hello "]));
}

#[test]
fn p1_all_supported_codes_build_a_filter() {
    for code in [
        "en", "ar", "da", "du", "fi", "fr", "ge", "gr", "hu", "it", "no", "po", "ro", "ru", "sp",
        "sw", "ta", "tu",
    ] {
        assert!(new_filter(code, words(&[])).is_ok(), "{code} must be supported");
    }
}

#[test]
fn p1_codes_outside_the_table_fail() {
    for code in ["zz", "EN", "En", "e", "english", "", "nl", "de", "en "] {
        match new_filter(code, words(&[])) {
            Ok(_) => panic!("{code:?} must not be accepted"),
            Err(FilterError::UnsupportedLanguage(c)) => assert_eq!(c, code),
        }
    }
}

#[test]
fn p2_length_invariants() {
    let f = english(&["a", "of"]);
    let input = words(&["A", "Tale", "OF", "Two", "Cities"]);
    assert_eq!(filter_stem(&f, input.clone()).len(), input.len());
    assert!(filter_remove_stopwords(&f, input.clone()).len() <= input.len());
    assert!(filter_remove_stopwords_and_stem(&f, input.clone()).len() <= input.len());
}

#[test]
fn p3_survivors_keep_their_relative_order() {
    let f = english(&["and", "the"]);
    let out = filter_remove_stopwords(&f, words(&["zebra", "AND", "apple", "THE", "mango"]));
    assert_eq!(out, words(&["zebra", "apple", "mango"]));
}

#[test]
fn p4_matching_ignores_case_on_both_sides() {
    let f = english(&["ThE"]);
    assert_eq!(filter_remove_stopwords(&f, words(&["the"])), words(&[]));
    assert_eq!(filter_remove_stopwords(&f, words(&["THE"])), words(&[]));
    assert_eq!(filter_remove_stopwords(&f, words(&["thee"])), words(&["thee"]));
}

#[test]
fn p4_unicode_case_folding() {
    let f = english(&["Über"]);
    assert_eq!(filter_remove_stopwords(&f, words(&["ÜBER"])), words(&[]));
    assert_eq!(filter_remove_stopwords(&f, words(&["über"])), words(&[]));
}

#[test]
fn p5_stop_words_are_removed_before_stemming() {
    // "running" stems to "run", so if stemming came first the token would
    // no longer match the stop-word list.  It must still be dropped.
    let f = english(&["running"]);
    assert_eq!(
        filter_remove_stopwords_and_stem(&f, words(&["Running"])),
        words(&[])
    );
    // The stemmed form of a non-stop-word is never matched against the set:
    // "runs" stems to "run", and "run" is not a stop word here.
    let g = english(&["run"]);
    assert_eq!(
        filter_remove_stopwords_and_stem(&g, words(&["runs"])),
        words(&["run"])
    );
}

#[test]
fn p6_empty_input_gives_empty_output() {
    let f = english(&["the"]);
    assert_eq!(filter_stem(&f, words(&[])), words(&[]));
    assert_eq!(filter_remove_stopwords(&f, words(&[])), words(&[]));
    assert_eq!(filter_remove_stopwords_and_stem(&f, words(&[])), words(&[]));
}

#[test]
fn p7_repeated_calls_on_one_filter_agree() {
    let f = english(&["the"]);
    let input = words(&["The", "Running", "Foxes"]);
    let first = filter_remove_stopwords_and_stem(&f, input.clone());
    let second = filter_remove_stopwords_and_stem(&f, input.clone());
    assert_eq!(first, second);
    // Other operations on the same shared filter are unaffected.
    assert_eq!(filter_stem(&f, input.clone()), words(&["the", "run", "fox"]));
    assert_eq!(first, words(&["run", "fox"]));
}

#[test]
fn duplicate_and_mixed_case_stop_words_collapse() {
    let f = english(&["The", "THE", "the", "tHe"]);
    assert_eq!(filter_remove_stopwords(&f, words(&["the", "cat"])), words(&["cat"]));
}

#[test]
fn empty_token_is_an_ordinary_token() {
    let f = english(&["the"]);
    assert_eq!(filter_remove_stopwords(&f, words(&[""])), words(&[""]));
    let g = english(&[""]);
    assert_eq!(filter_remove_stopwords(&g, words(&[""])), words(&[]));
}

#[test]
fn error_message_names_the_offending_code() {
    match new_filter("xx", words(&[])) {
        Ok(_) => panic!("xx must not be accepted"),
        Err(e) => assert_eq!(e.message(), "stemming language not supported: xx"),
    }
}

#[test]
fn stemming_uses_the_chosen_language() {
    // The English stemmer strips the plural from "foxes"; the Russian one
    // only rewrites Cyrillic suffixes and leaves the word alone.
    let en = new_filter("en", words(&[])).expect("en is a supported language");
    let ru = new_filter("ru", words(&[])).expect("ru is a supported language");
    assert_eq!(filter_stem(&en, words(&["foxes"])), words(&["fox"]));
    assert_eq!(filter_stem(&ru, words(&["foxes"])), words(&["foxes"]));
}

#[test]
fn punctuation_is_not_special_cased() {
    let f = english(&["the"]);
    let out = filter_remove_stopwords(&f, words(&["the.", "don't"]));
    assert_eq!(out, words(&["the.", "don't"]));
}
