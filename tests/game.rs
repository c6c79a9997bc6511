use wordle::dictionary::Dictionary;
use wordle::game::{Event, Outcome, Wordle};
use wordle::feedback::Class;
use wordle::word::{lower_letter, same_letters, check_word, is_letter};

fn word(s: &str) -> Vec<char> {
    s.chars().collect()
}

fn dictionary() -> Dictionary {
    Dictionary::new(
        ["crane", "slate", "speed", "erase", "alloy", "llama", "pious", "trick", "mound", "bluff"]
            .iter()
            .map(|w| word(w))
            .collect(),
    )
}

fn game(answer: &str) -> Wordle {
    Wordle::with_answer(word(answer), dictionary())
}

fn type_word(w: &mut Wordle, s: &str) {
    for c in s.chars() {
        w.input(c);
    }
}

#[test]
fn fresh_game_is_in_progress() {
    let w = game("crane");
    assert_eq!(w.outcome(), Outcome::InProgress);
    assert_eq!(w.won(), None);
    assert!(w.current().is_empty());
    assert!(w.guess_list().is_empty());
    assert_eq!(w.revealed_answer(), None);
}

#[test]
fn input_lowercases_and_ignores_non_letters() {
    let mut w = game("crane");
    w.input('C');
    w.input('1');
    w.input(' ');
    w.input('r');
    w.input('é');
    assert_eq!(w.current(), word("cr"));
}

#[test]
fn input_never_exceeds_five_letters() {
    let mut w = game("crane");
    for _ in 0..20 {
        w.input('a');
        assert!(w.current().len() <= 5);
    }
    assert_eq!(w.current(), word("aaaaa"));
}

#[test]
fn erase_on_empty_changes_nothing() {
    let mut w = game("crane");
    w.erase();
    w.erase();
    assert!(w.current().is_empty());
    assert!(w.guess_list().is_empty());
    assert_eq!(w.outcome(), Outcome::InProgress);
}

#[test]
fn erase_removes_last_letter() {
    let mut w = game("crane");
    type_word(&mut w, "sla");
    w.erase();
    assert_eq!(w.current(), word("sl"));
}

#[test]
fn short_guess_is_rejected() {
    let mut w = game("crane");
    type_word(&mut w, "slat");
    w.guess();
    assert_eq!(w.current(), word("slat"));
    assert!(w.guess_list().is_empty());
}

#[test]
fn unknown_word_is_rejected() {
    let mut w = game("crane");
    type_word(&mut w, "zzzzz");
    w.guess();
    assert_eq!(w.current(), word("zzzzz"));
    assert!(w.guess_list().is_empty());
}

#[test]
fn accepted_guess_moves_to_history() {
    let mut w = game("crane");
    type_word(&mut w, "SLATE");
    w.guess();
    assert!(w.current().is_empty());
    assert_eq!(w.guess_list(), vec![word("slate")]);
    assert_eq!(
        w.feedback(),
        vec![vec![Class::Absent, Class::Absent, Class::Correct, Class::Absent, Class::Correct]]
    );
    assert_eq!(w.outcome(), Outcome::InProgress);
}

#[test]
fn guessing_the_answer_wins() {
    let mut w = game("crane");
    type_word(&mut w, "crane");
    w.guess();
    assert_eq!(w.outcome(), Outcome::Won);
    assert_eq!(w.won(), Some(true));
    assert_eq!(w.revealed_answer(), Some(word("crane")));
}

#[test]
fn win_on_sixth_guess_beats_loss() {
    let mut w = game("crane");
    for g in ["slate", "speed", "erase", "alloy", "llama", "crane"] {
        type_word(&mut w, g);
        w.guess();
    }
    assert_eq!(w.guess_list().len(), 6);
    assert_eq!(w.outcome(), Outcome::Won);
}

#[test]
fn six_wrong_guesses_lose() {
    let mut w = game("crane");
    for g in ["slate", "speed", "erase", "alloy", "llama", "pious"] {
        type_word(&mut w, g);
        w.guess();
    }
    assert_eq!(w.outcome(), Outcome::Lost);
    assert_eq!(w.won(), Some(false));
    assert_eq!(w.revealed_answer(), Some(word("crane")));
}

#[test]
fn finished_game_takes_no_more_moves() {
    let mut w = game("crane");
    type_word(&mut w, "crane");
    w.guess();
    type_word(&mut w, "slate");
    w.guess();
    w.erase();
    assert!(w.current().is_empty());
    assert_eq!(w.guess_list().len(), 1);
    assert_eq!(w.outcome(), Outcome::Won);
}

#[test]
fn events_drive_the_game() {
    let mut w = game("crane");
    for c in "cranx".chars() {
        assert!(!w.apply(Event::Letter(c)));
    }
    assert!(!w.apply(Event::Backspace));
    assert!(!w.apply(Event::Letter('e')));
    assert!(!w.apply(Event::Other));
    assert_eq!(w.current(), word("crane"));
    assert!(!w.apply(Event::Submit));
    assert_eq!(w.outcome(), Outcome::Won);
    assert!(w.apply(Event::Quit));
}

#[test]
fn random_answer_comes_from_the_list() {
    let answers = vec![word("crane"), word("slate")];
    let mut w = Wordle::new(&answers, dictionary()).unwrap();
    assert_eq!(w.outcome(), Outcome::InProgress);
    for g in ["speed", "erase", "alloy", "llama", "pious", "trick"] {
        type_word(&mut w, g);
        w.guess();
    }
    assert_eq!(w.outcome(), Outcome::Lost);
    let a = w.revealed_answer().unwrap();
    assert!(answers.contains(&a));
}

#[test]
fn no_answers_give_no_game() {
    assert!(Wordle::new(&Vec::new(), dictionary()).is_none());
}

#[test]
fn malformed_answer_gives_no_game() {
    assert!(Wordle::new(&vec![word("toolong")], dictionary()).is_none());
    assert!(Wordle::new(&vec![word("CRANE")], dictionary()).is_none());
}

#[test]
fn letters_and_words() {
    assert_eq!(lower_letter('Q'), 'q');
    assert_eq!(lower_letter('q'), 'q');
    assert!(is_letter('z') && is_letter('A'));
    assert!(!is_letter('5') && !is_letter('é'));
    assert!(check_word(&word("crane")));
    assert!(!check_word(&word("cran")));
    assert!(!check_word(&word("Crane")));
    assert!(same_letters(&word("crane"), &word("crane")));
    assert!(!same_letters(&word("crane"), &word("crank")));
    assert!(!same_letters(&word("cran"), &word("crane")));
}

#[test]
fn dictionary_membership() {
    let d = dictionary();
    assert!(d.contains(&word("bluff")));
    assert!(!d.contains(&word("bluf")));
    assert!(!d.contains(&word("zzzzz")));
}
