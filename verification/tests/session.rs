use alphabet_game::database::{Language, Word};
use alphabet_game::game::{CheckOutcome, GameContext, SessionError};
use rand::rngs::StdRng;
use rand::SeedableRng;

fn language(id: u32, code: &str, strip_diacritics: bool) -> Language {
    Language {
        id,
        name: code.to_uppercase(),
        name_other: None,
        code: code.to_string(),
        strip_diacritics,
    }
}

fn word(text: &str, language_id: u32) -> Word {
    Word { id: 7, word: text.to_string(), language_id }
}

fn letters(text: &str) -> Vec<String> {
    text.chars().map(|c| c.to_string()).collect()
}

fn latin() -> Vec<String> {
    letters("abcdefghijklmnopqrstuvwxyz")
}

fn sorted(mut units: Vec<String>) -> Vec<String> {
    units.sort();
    units
}

fn session_on(text: &str) -> (GameContext, StdRng) {
    let mut rng = StdRng::seed_from_u64(1);
    let mut session = GameContext::new(language(1, "en", false));
    assert_eq!(session.on_word_and_alphabet_ready(&word(text, 1), latin(), &mut rng), Ok(()));
    (session, rng)
}

fn spell(session: &mut GameContext, text: &str) {
    while !session.state().user_input().is_empty() {
        session.remove_last_letter();
    }
    for letter in letters(text) {
        session.add_letter(&letter);
    }
}

#[test]
fn new_session_has_no_points_and_needs_a_word() {
    let session = GameContext::new(language(1, "en", false));
    assert_eq!(session.score(), 0);
    assert_eq!(session.get_language().id, 1);
    assert_eq!(session.get_current_word(), "");
    assert!(session.needs_word());
    assert!(!session.state().is_completed());
    assert_eq!(session.state().attempts(), 0);
}

#[test]
fn word_and_alphabet_start_a_round() {
    let (session, _) = session_on("ice cream");
    assert!(!session.needs_word());
    assert_eq!(session.get_current_word(), "ice");
    assert_eq!(session.state().target_units(), &letters("ice"));
    assert_eq!(session.state().language_letters(), &latin());
    assert_eq!(session.state().language().id, 1);
    let grid = session.state().game_letters().clone();
    assert_eq!(grid.len(), 12);
    for unit in letters("ice") {
        assert_eq!(grid.iter().filter(|g| **g == unit).count(), 1);
    }
    let mut distinct = sorted(grid.clone());
    distinct.dedup();
    assert_eq!(distinct.len(), grid.len());
    assert!(session.state().user_input().is_empty());
    assert_eq!(session.state().attempts(), 0);
    assert!(!session.state().is_completed());
}

#[test]
fn correct_first_check_of_cat_adds_thirteen_points() {
    let (mut session, _) = session_on("cat");
    spell(&mut session, "cat");
    let before = session.score();
    assert_eq!(session.check_spelling(), CheckOutcome::Correct { points: 13 });
    assert_eq!(session.score(), before + 13);
    assert!(session.state().is_completed());
    assert!(session.needs_word());
}

#[test]
fn five_wrong_checks_end_the_round_and_leave_the_score() {
    let (mut session, mut rng) = session_on("cat");
    spell(&mut session, "cat");
    session.check_spelling();
    assert_eq!(session.on_word_and_alphabet_ready(&word("dog", 1), latin(), &mut rng), Ok(()));
    assert_eq!(session.score(), 13);
    spell(&mut session, "dig");
    for _ in 0..4 {
        assert_eq!(session.check_spelling(), CheckOutcome::Retry);
        assert!(!session.state().is_completed());
        assert_eq!(session.score(), 13);
    }
    assert_eq!(session.check_spelling(), CheckOutcome::OutOfAttempts);
    assert!(session.state().is_completed());
    assert_eq!(session.score(), 13);
    assert!(session.needs_word());
}

#[test]
fn score_adds_up_over_rounds_and_never_falls() {
    let (mut session, mut rng) = session_on("cat");
    let mut last = session.score();
    spell(&mut session, "cab");
    session.check_spelling();
    assert_eq!(session.score(), last);
    spell(&mut session, "cat");
    assert_eq!(session.check_spelling(), CheckOutcome::Correct { points: 11 });
    assert!(session.score() >= last);
    last = session.score();
    assert_eq!(session.check_spelling(), CheckOutcome::Inactive);
    assert_eq!(session.score(), last);
    session.on_word_and_alphabet_ready(&word("horse", 1), latin(), &mut rng).unwrap();
    assert_eq!(session.score(), last);
    spell(&mut session, "horse");
    assert_eq!(session.check_spelling(), CheckOutcome::Correct { points: 15 });
    assert_eq!(session.score(), 11 + 15);
}

#[test]
fn late_word_of_the_old_language_is_ignored() {
    let (mut session, mut rng) = session_on("cat");
    spell(&mut session, "ca");
    session.check_spelling();
    let word_before = session.get_current_word();
    let target_before = session.state().target_units().clone();
    let grid_before = session.state().game_letters().clone();
    let letters_before = session.state().language_letters().clone();

    session.set_language(&language(2, "ko", false));
    assert_eq!(
        session.on_word_and_alphabet_ready(&word("dog", 1), letters("dgo"), &mut rng),
        Err(SessionError::StaleResultIgnored)
    );

    assert_eq!(session.get_language().id, 2);
    assert_eq!(session.get_current_word(), word_before);
    assert_eq!(session.state().target_units(), &target_before);
    assert_eq!(session.state().game_letters(), &grid_before);
    assert_eq!(session.state().language_letters(), &letters_before);
    assert_eq!(session.state().user_input(), &letters("ca"));
    assert_eq!(session.state().attempts(), 1);
    assert_eq!(session.state().language().id, 1);
    assert!(!session.state().is_completed());
    assert!(session.needs_word());
}

#[test]
fn change_of_language_keeps_the_round_until_a_word_arrives() {
    let (mut session, mut rng) = session_on("cat");
    spell(&mut session, "c");
    session.set_language(&language(2, "ko", false));
    assert!(session.needs_word());
    assert_eq!(session.get_current_word(), "cat");
    assert_eq!(session.state().user_input(), &letters("c"));
    assert_eq!(session.state().language().id, 1);

    let jamo = letters("ㄱㄴㄷㄹㅁㅂㅅㅇㅈㅊㅋㅌㅍㅎㅏㅑㅓㅕㅗㅛㅜㅠㅡㅣ");
    assert_eq!(session.on_word_and_alphabet_ready(&word("한글", 2), jamo.clone(), &mut rng), Ok(()));
    assert!(!session.needs_word());
    assert_eq!(session.get_current_word(), "한글");
    assert_eq!(session.state().target_units(), &letters("ㅎㅏㄴㄱㅡㄹ"));
    assert_eq!(session.state().language().id, 2);
    assert_eq!(session.state().language_letters(), &jamo);
    assert!(session.state().user_input().is_empty());
    assert_eq!(session.state().game_letters().len(), 12);
}

#[test]
fn empty_word_is_refused_and_the_round_stays() {
    let (mut session, mut rng) = session_on("cat");
    spell(&mut session, "ca");
    for text in ["", "   ", "\t\n"] {
        assert_eq!(
            session.on_word_and_alphabet_ready(&word(text, 1), letters("xyz"), &mut rng),
            Err(SessionError::EmptyWord)
        );
        assert_eq!(session.reset_for_next_word(text.to_string(), &mut rng), Err(SessionError::EmptyWord));
    }
    assert_eq!(session.get_current_word(), "cat");
    assert_eq!(session.state().user_input(), &letters("ca"));
    assert_eq!(session.state().language_letters(), &latin());
    assert!(!session.needs_word());
}

#[test]
fn stale_word_is_told_from_an_empty_one() {
    let (mut session, mut rng) = session_on("cat");
    assert_eq!(
        session.on_word_and_alphabet_ready(&word("", 5), latin(), &mut rng),
        Err(SessionError::StaleResultIgnored)
    );
    assert_eq!(
        session.on_word_and_alphabet_ready(&word("", 1), latin(), &mut rng),
        Err(SessionError::EmptyWord)
    );
}

#[test]
fn next_word_is_played_over_the_alphabet_that_the_session_holds() {
    let mut rng = StdRng::seed_from_u64(9);
    let mut session = GameContext::new(language(1, "en", false));
    session.set_language_letters(letters("abcdef"));
    assert_eq!(session.reset_for_next_word("bad idea".to_string(), &mut rng), Ok(()));
    assert_eq!(session.get_current_word(), "bad");
    assert_eq!(session.state().target_units(), &letters("bad"));
    assert_eq!(sorted(session.state().game_letters().clone()), letters("abcdef"));
    assert_eq!(session.state().language_letters(), &letters("abcdef"));
    assert!(!session.needs_word());
}

#[test]
fn arabic_session_plays_the_word_without_its_diacritics() {
    let mut rng = StdRng::seed_from_u64(2);
    let mut session = GameContext::new(language(3, "ar", true));
    let alphabet = letters("ابتثجحخدذرزسشصضطظعغفقكلمنهوي");
    session.on_word_and_alphabet_ready(&word("تَشْكِيل", 3), alphabet, &mut rng).unwrap();
    assert_eq!(session.get_current_word(), "تشكيل");
    assert_eq!(session.state().target_units(), &letters("تشكيل"));
    spell(&mut session, "تشكيل");
    assert_eq!(session.check_spelling(), CheckOutcome::Correct { points: 15 });
}

#[test]
fn letters_go_through_the_session_to_the_round() {
    let (mut session, _) = session_on("cat");
    session.add_letter("c");
    session.add_letter("a");
    session.add_letter("t");
    session.add_letter("s");
    assert_eq!(session.state().user_input(), &letters("cat"));
    session.remove_last_letter();
    assert_eq!(session.state().user_input(), &letters("ca"));
    assert_eq!(session.score(), 0);
}

#[test]
fn check_before_any_word_finds_nothing_wrong_with_nothing() {
    let mut session = GameContext::new(language(1, "en", false));
    assert_eq!(session.check_spelling(), CheckOutcome::Correct { points: 10 });
    assert_eq!(session.score(), 10);
    assert!(session.state().is_completed());
}
