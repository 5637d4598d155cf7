use koe::dict::{conclude_substitution, replace_words_on_dict, usable_dictionary, DictEntry};

fn pairs(dict: &[DictEntry]) -> Vec<(String, String)> {
    dict.iter().map(|entry| (entry.word.clone(), entry.read_as.clone())).collect()
}

fn entry(word: &str, read_as: &str) -> DictEntry {
    DictEntry { word: word.to_string(), read_as: read_as.to_string() }
}

#[test]
fn longest_word_at_the_leftmost_place_wins() {
    let dict = vec![entry("AB", "x"), entry("ABC", "y")];
    assert_eq!(replace_words_on_dict("ABCD", &dict).unwrap(), "yD");
}

#[test]
fn longest_word_wins_whatever_the_order_of_entries() {
    let dict = vec![entry("ABC", "y"), entry("AB", "x")];
    assert_eq!(replace_words_on_dict("ABCD", &dict).unwrap(), "yD");
}

#[test]
fn leftmost_match_wins_over_a_longer_later_one() {
    let dict = vec![entry("bcd", "LONG"), entry("ab", "L")];
    assert_eq!(replace_words_on_dict("abcd", &dict).unwrap(), "Lcd");
}

#[test]
fn every_occurrence_is_replaced() {
    let dict = vec![entry("append", "x"), entry("appendage", "y"), entry("app", "z")];
    assert_eq!(
        replace_words_on_dict("append the app to the appendage", &dict).unwrap(),
        "x the z to the y"
    );
}

#[test]
fn a_reading_is_not_scanned_again() {
    let dict = vec![entry("a", "b"), entry("b", "c")];
    assert_eq!(replace_words_on_dict("ab", &dict).unwrap(), "bc");
}

#[test]
fn empty_dictionary_leaves_the_text() {
    let dict: Vec<DictEntry> = Vec::new();
    assert_eq!(replace_words_on_dict("こんにちは world", &dict).unwrap(), "こんにちは world");
    assert_eq!(replace_words_on_dict("", &dict).unwrap(), "");
}

#[test]
fn text_without_dictionary_words_is_left_and_stays_so() {
    let dict = vec![entry("foo", "bar"), entry("世界", "せかい")];
    let once = replace_words_on_dict("hello, 世 界!", &dict).unwrap();
    assert_eq!(once, "hello, 世 界!");
    let twice = replace_words_on_dict(&once, &dict).unwrap();
    assert_eq!(twice, once);
}

#[test]
fn words_of_several_bytes_are_replaced() {
    let dict = vec![entry("世界", "せかい"), entry("koe", "こえ")];
    assert_eq!(
        replace_words_on_dict("こんにちは世界、koeです", &dict).unwrap(),
        "こんにちはせかい、こえです"
    );
}

#[test]
fn leftmost_match_wins_whatever_the_order_of_entries() {
    let dict = vec![entry("BC", "x"), entry("AB", "y")];
    assert_eq!(replace_words_on_dict("ABC", &dict).unwrap(), "yC");
}

#[test]
fn empty_word_matches_nothing() {
    let dict = vec![entry("a", "b"), entry("", "c")];
    assert_eq!(replace_words_on_dict("abc", &dict).unwrap(), "bbc");
    let only_empty = vec![entry("", "c")];
    assert_eq!(replace_words_on_dict("世界 abc", &only_empty).unwrap(), "世界 abc");
}

#[test]
fn repeated_word_is_read_as_its_first_entry_says() {
    let dict = vec![entry("a", "b"), entry("c", "d"), entry("a", "e")];
    assert_eq!(replace_words_on_dict("abc", &dict).unwrap(), "bbd");
    let turned = vec![entry("a", "e"), entry("c", "d"), entry("a", "b")];
    assert_eq!(replace_words_on_dict("abc", &turned).unwrap(), "ebd");
}

#[test]
fn repeated_word_that_does_not_occur_leaves_the_text() {
    let dict = vec![entry("zz", "1"), entry("zz", "2")];
    assert_eq!(replace_words_on_dict("hello", &dict).unwrap(), "hello");
}

#[test]
fn two_calls_on_one_input_give_one_result() {
    let dict = vec![entry("a", "1"), entry("ab", "2"), entry("a", "3"), entry("", "4")];
    let first = replace_words_on_dict("abab a", &dict).unwrap();
    let second = replace_words_on_dict("abab a", &dict).unwrap();
    assert_eq!(first, "22 1");
    assert_eq!(second, first);
    assert_eq!(pairs(&dict).len(), 4);
}

#[test]
fn usable_dictionary_keeps_first_entries_with_a_word() {
    let dict = vec![
        entry("a", "1"),
        entry("", "2"),
        entry("b", "3"),
        entry("a", "4"),
        entry("b", "5"),
        entry("c", "6"),
    ];
    assert_eq!(
        pairs(&usable_dictionary(&dict)),
        vec![
            ("a".to_string(), "1".to_string()),
            ("b".to_string(), "3".to_string()),
            ("c".to_string(), "6".to_string()),
        ]
    );
    assert!(usable_dictionary(&Vec::new()).is_empty());
}

#[test]
fn words_with_one_reading_are_all_kept() {
    let dict = vec![entry("a", "same"), entry("ab", "same"), entry("b", "same")];
    assert_eq!(usable_dictionary(&dict).len(), 3);
    assert_eq!(replace_words_on_dict("abb", &dict).unwrap(), "samesame");
}

#[test]
fn successful_matcher_gives_the_replaced_text() {
    assert_eq!(conclude_substitution(Ok("done".to_string())).unwrap(), "done");
}
