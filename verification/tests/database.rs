use alphabet_game::database::{
    alphabet_letters, decompose, find_language, found_languages, start_language, Language,
    Letter, Word,
};
use alphabet_game::script::EmptyWordError;

fn language(id: u32, code: &str, strip_diacritics: bool) -> Language {
    Language {
        id,
        name: code.to_uppercase(),
        name_other: Some(code.to_lowercase()),
        code: code.to_string(),
        strip_diacritics,
    }
}

fn letter(id: u32, text: &str) -> Letter {
    Letter {
        id,
        letter: text.to_string(),
        language_id: 1,
        regular: Some(true),
        hidden: None,
        name_en: None,
    }
}

fn word(text: &str) -> Word {
    Word { id: 1, word: text.to_string(), language_id: 1 }
}

fn units(letters: &[&str]) -> Vec<String> {
    letters.iter().map(|l| l.to_string()).collect()
}

#[test]
fn new_word_is_empty() {
    let fresh = Word::new();
    assert_eq!(fresh.id, 0);
    assert_eq!(fresh.word, "");
    assert_eq!(fresh.language_id, 0);
    assert!(fresh.is_empty());
    assert_eq!(fresh.len(), 0);
    let default = Word::default();
    assert_eq!((default.id, default.word.as_str(), default.language_id), (0, "", 0));
}

#[test]
fn word_is_cleaned_for_its_language() {
    assert_eq!(word("ice cream").post_process(&language(1, "en", false)), Ok("ice".to_string()));
    assert_eq!(word("تَشْكِيل").post_process(&language(3, "ar", true)), Ok("تشكيل".to_string()));
    assert_eq!(word("تَش").post_process(&language(3, "ar", false)), Ok("تَش".to_string()));
    assert_eq!(word("تَش").post_process(&language(1, "en", true)), Ok("تَش".to_string()));
    assert_eq!(word("  ").post_process(&language(1, "en", false)), Err(EmptyWordError));
}

#[test]
fn word_length_counts_letters_not_bytes() {
    assert_eq!(word("cat").len(), 3);
    assert_eq!(word("кот").len(), 3);
    assert_eq!(word("대한").len(), 5);
    assert!(!word("a").is_empty());
}

#[test]
fn letters_for_grid_hold_each_letter_once() {
    assert_eq!(word("hello").letters_for_grid(), units(&["h", "e", "l", "o"]));
    assert_eq!(word("하하").letters_for_grid(), units(&["ㅎ", "ㅏ"]));
    assert_eq!(Word::new().letters_for_grid(), Vec::<String>::new());
}

#[test]
fn decompose_is_reachable_beside_the_word() {
    assert_eq!(decompose("밥".to_string()), vec!['ㅂ', 'ㅏ', 'ㅂ']);
}

#[test]
fn alphabet_is_the_letter_of_each_row_in_order() {
    let rows = vec![letter(1, "b"), letter(2, "a"), letter(3, "ch"), letter(4, "a")];
    assert_eq!(alphabet_letters(&rows), units(&["b", "a", "ch", "a"]));
    assert_eq!(alphabet_letters(&Vec::new()), Vec::<String>::new());
}

#[test]
fn language_is_found_by_its_code() {
    let languages = vec![language(1, "en", false), language(2, "ko", false), language(3, "ko", true)];
    let found = find_language(&languages, "ko").unwrap();
    assert_eq!(found.id, 2);
    assert_eq!(found.name, "KO");
    assert_eq!(found.name_other.as_deref(), Some("ko"));
    assert!(!found.strip_diacritics);
    assert!(find_language(&languages, "ar").is_none());
    assert!(find_language(&languages, "k").is_none());
    assert!(find_language(&Vec::new(), "en").is_none());
}

#[test]
fn session_starts_in_the_requested_language_or_the_default() {
    let languages = vec![language(1, "en", false), language(2, "ko", false)];
    assert_eq!(start_language(Some("ko"), &languages, language(1, "en", false)).id, 2);
    assert_eq!(start_language(Some("xx"), &languages, language(1, "en", false)).id, 1);
    assert_eq!(start_language(None, &languages, language(9, "zz", false)).id, 9);
    assert_eq!(start_language(Some("en"), &Vec::new(), language(9, "zz", false)).id, 9);
}

#[test]
fn languages_are_the_same_by_identifier() {
    let english = language(1, "en", false);
    let renamed = language(1, "english", true);
    assert!(english.same_as(&renamed));
    assert!(!english.same_as(&language(2, "en", false)));
    let copy = english.clone();
    assert_eq!((copy.id, copy.code.as_str(), copy.strip_diacritics), (1, "en", false));
    assert_eq!(copy.name_other.as_deref(), Some("en"));
}

#[test]
fn found_languages_are_listed_by_name() {
    let mut english = language(1, "en", false);
    english.name = "English".to_string();
    let mut korean = language(2, "ko", false);
    korean.name = "한국어".to_string();
    let mut arabic = language(3, "ar", true);
    arabic.name = "Arabic".to_string();
    assert_eq!(found_languages(&Vec::new()), "Found Languages: ");
    assert_eq!(found_languages(&vec![english.clone()]), "Found Languages: English");
    assert_eq!(
        found_languages(&vec![english, korean, arabic]),
        "Found Languages: English, 한국어, Arabic"
    );
}
