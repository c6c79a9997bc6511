//! The game state: the answer, the guesses so far and the letters being typed.

use rand::seq::SliceRandom;
use vstd::prelude::*;

use crate::dictionary::Dictionary;
use crate::feedback::{evaluate, feedback, Class};
use crate::word::{
    ascii_lower, check_word, copy_word, is_ascii_letter, is_letter, is_lower_letter, is_word,
    lemma_lower_letter, lower_letter, same_letters, WORD_LEN,
};

verus! {

/// How many guesses a game allows.
pub const MAX_GUESSES: usize = 6;

/// Where a game stands.
#[derive(Clone, Copy, Debug, PartialEq, Eq, Structural)]
pub enum Outcome {
    InProgress,
    Won,
    Lost,
}

/// What the player did.
#[derive(Clone, Copy, Debug, PartialEq, Eq, Structural)]
pub enum Event {
    /// A key that types a character.
    Letter(char),
    /// Take back the last letter typed.
    Backspace,
    /// Submit the letters typed as a guess.
    Submit,
    /// Leave the game.
    Quit,
    /// Anything else.
    Other,
}

/// The outcome of a game with this answer after these guesses: won when the
/// latest guess is the answer, else lost once the guesses are used up.
pub open spec fn outcome_of(answer: Seq<char>, guesses: Seq<Seq<char>>) -> Outcome {
    if guesses.len() > 0 && guesses.last() == answer {
        Outcome::Won
    } else if guesses.len() >= MAX_GUESSES {
        Outcome::Lost
    } else {
        Outcome::InProgress
    }
}

/// The abstract state of a game.
pub struct GameView {
    pub answer: Seq<char>,
    pub current: Seq<char>,
    pub guesses: Seq<Seq<char>>,
    pub dictionary: Seq<Seq<char>>,
}

impl GameView {
    pub open spec fn outcome(self) -> Outcome {
        outcome_of(self.answer, self.guesses)
    }

    /// The letters typed could be submitted as a guess.
    pub open spec fn accepts_current(self) -> bool {
        self.current.len() == WORD_LEN && self.dictionary.contains(self.current)
    }

    /// The answer is a word, at most five lowercase letters are typed, and at
    /// most six guesses are made, each a word of the dictionary.
    pub open spec fn valid(self) -> bool {
        &&& is_word(self.answer)
        &&& self.current.len() <= WORD_LEN
        &&& forall|i: int| 0 <= i < self.current.len() ==> is_lower_letter(#[trigger] self.current[i])
        &&& self.guesses.len() <= MAX_GUESSES
        &&& forall|i: int|
            0 <= i < self.guesses.len() ==> is_word(#[trigger] self.guesses[i])
                && self.dictionary.contains(self.guesses[i])
    }

    /// Typing `c`: while the game goes on and fewer than five letters are
    /// typed, an ASCII letter is added in lowercase; anything else is ignored.
    pub open spec fn after_input(self, c: char) -> GameView {
        if self.outcome() == Outcome::InProgress && self.current.len() < WORD_LEN
            && is_ascii_letter(c) {
            GameView { current: self.current.push(ascii_lower(c)), ..self }
        } else {
            self
        }
    }

    /// Typing each character of `cs` in turn.
    pub open spec fn after_inputs(self, cs: Seq<char>) -> GameView
        decreases cs.len(),
    {
        if cs.len() == 0 {
            self
        } else {
            self.after_inputs(cs.drop_last()).after_input(cs.last())
        }
    }

    /// Erasing: while the game goes on, the last letter typed goes.
    pub open spec fn after_erase(self) -> GameView {
        if self.outcome() == Outcome::InProgress && self.current.len() > 0 {
            GameView { current: self.current.drop_last(), ..self }
        } else {
            self
        }
    }

    /// Submitting: while the game goes on, five typed letters that form a
    /// word of the dictionary become the latest guess and the typing starts
    /// over; otherwise nothing changes.
    pub open spec fn after_submit(self) -> GameView {
        if self.outcome() == Outcome::InProgress && self.accepts_current() {
            GameView { current: Seq::empty(), guesses: self.guesses.push(self.current), ..self }
        } else {
            self
        }
    }

    /// The state after the player's `event`.
    pub open spec fn after_event(self, event: Event) -> GameView {
        match event {
            Event::Letter(c) => self.after_input(c),
            Event::Backspace => self.after_erase(),
            Event::Submit => self.after_submit(),
            Event::Quit => self,
            Event::Other => self,
        }
    }
}

/// A game in play.
pub struct Wordle {
    answer: Vec<char>,
    curr: Vec<char>,
    guesses: Vec<Vec<char>>,
    dictionary: Dictionary,
}

impl View for Wordle {
    type V = GameView;

    closed spec fn view(&self) -> GameView {
        GameView {
            answer: self.answer@,
            current: self.curr@,
            guesses: self.guesses@.map_values(|w: Vec<char>| w@),
            dictionary: self.dictionary@,
        }
    }
}

/// Relies on rand's `SliceRandom::choose` with the thread-local generator:
/// `None` when the list is empty, else one of its words.
#[verifier::external_body]
fn choose_word(words: &Vec<Vec<char>>) -> (r: Option<&Vec<char>>)
    ensures
        (words@.len() == 0) == (r is None),
        r matches Some(w) ==> words@.contains(*w),
{
    words.choose(&mut rand::thread_rng())
}

impl Wordle {
    /// A fresh game with the given answer.
    pub fn with_answer(answer: Vec<char>, dictionary: Dictionary) -> (r: Wordle)
        requires
            is_word(answer@),
        ensures
            r@ == (GameView {
                answer: answer@,
                current: Seq::empty(),
                guesses: Seq::empty(),
                dictionary: dictionary@,
            }),
            r@.valid(),
    {
        let r = Wordle { answer, curr: Vec::new(), guesses: Vec::new(), dictionary };
        assert(r@.guesses =~= Seq::empty());
        r
    }

    /// A fresh game whose answer is drawn at random from `answers`. `None`
    /// when `answers` is empty or the word drawn is not five lowercase
    /// letters.
    pub fn new(answers: &Vec<Vec<char>>, dictionary: Dictionary) -> (r: Option<Wordle>)
        ensures
            answers@.len() == 0 ==> r is None,
            (answers@.len() > 0 && forall|i: int|
                0 <= i < answers@.len() ==> is_word(#[trigger] answers@[i]@)) ==> r is Some,
            r matches Some(w) ==> {
                &&& w@.valid()
                &&& exists|i: int| 0 <= i < answers@.len() && #[trigger] answers@[i]@ == w@.answer
                &&& w@.current == Seq::<char>::empty()
                &&& w@.guesses == Seq::<Seq<char>>::empty()
                &&& w@.dictionary == dictionary@
            },
    {
        match choose_word(answers) {
            Some(w) => {
                if check_word(w) {
                    Some(Wordle::with_answer(copy_word(w), dictionary))
                } else {
                    None
                }
            },
            None => None,
        }
    }

    /// Types `c`.
    pub fn input(&mut self, c: char)
        requires
            old(self)@.valid(),
        ensures
            final(self)@ == old(self)@.after_input(c),
            final(self)@.valid(),
            final(self)@.current.len() <= WORD_LEN,
    {
        if self.outcome() == Outcome::InProgress && self.curr.len() < WORD_LEN && is_letter(c) {
            let l = lower_letter(c);
            self.curr.push(l);
        }
    }

    /// Takes back the last letter typed.
    pub fn erase(&mut self)
        requires
            old(self)@.valid(),
        ensures
            final(self)@ == old(self)@.after_erase(),
            final(self)@.valid(),
            old(self)@.current.len() == 0 ==> final(self)@ == old(self)@,
    {
        if self.outcome() == Outcome::InProgress {
            self.curr.pop();
        }
    }

    /// Submits the letters typed as a guess.
    pub fn guess(&mut self)
        requires
            old(self)@.valid(),
        ensures
            final(self)@ == old(self)@.after_submit(),
            final(self)@.valid(),
            !old(self)@.accepts_current() ==> final(self)@ == old(self)@,
    {
        if self.outcome() == Outcome::InProgress && self.curr.len() == WORD_LEN
            && self.dictionary.contains(&self.curr) {
            let mut taken: Vec<char> = Vec::new();
            std::mem::swap(&mut taken, &mut self.curr);
            self.guesses.push(taken);
            assert(self@.guesses =~= old(self)@.guesses.push(old(self)@.current));
        }
    }

    /// Where the game stands.
    pub fn outcome(&self) -> (r: Outcome)
        requires
            self@.valid(),
        ensures
            r == self@.outcome(),
    {
        let n = self.guesses.len();
        if n > 0 && same_letters(&self.guesses[n - 1], &self.answer) {
            Outcome::Won
        } else if n >= MAX_GUESSES {
            Outcome::Lost
        } else {
            Outcome::InProgress
        }
    }

    /// `Some(true)` once won, `Some(false)` once lost, `None` while the game
    /// goes on.
    pub fn won(&self) -> (r: Option<bool>)
        requires
            self@.valid(),
        ensures
            r == match self@.outcome() {
                Outcome::InProgress => None,
                Outcome::Won => Some(true),
                Outcome::Lost => Some(false),
            },
    {
        match self.outcome() {
            Outcome::InProgress => None,
            Outcome::Won => Some(true),
            Outcome::Lost => Some(false),
        }
    }

    /// Applies the player's `event`; `true` when the player quits.
    pub fn apply(&mut self, event: Event) -> (quit: bool)
        requires
            old(self)@.valid(),
        ensures
            final(self)@ == old(self)@.after_event(event),
            final(self)@.valid(),
            quit == (event == Event::Quit),
    {
        match event {
            Event::Letter(c) => {
                self.input(c);
                false
            },
            Event::Backspace => {
                self.erase();
                false
            },
            Event::Submit => {
                self.guess();
                false
            },
            Event::Quit => true,
            Event::Other => false,
        }
    }
    /// The feedback of each guess so far, in order.
    pub fn feedback(&self) -> (r: Vec<Vec<Class>>)
        requires
            self@.valid(),
        ensures
            r@.len() == self@.guesses.len(),
            forall|i: int|
                0 <= i < r@.len() ==> #[trigger] r@[i]@ == feedback(self@.guesses[i], self@.answer),
    {
        let mut r: Vec<Vec<Class>> = Vec::new();
        let mut i: usize = 0;
        while i < self.guesses.len()
            invariant
                self@.valid(),
                i <= self.guesses@.len(),
                r@.len() == i,
                forall|k: int|
                    0 <= k < i ==> #[trigger] r@[k]@ == feedback(self@.guesses[k], self@.answer),
            decreases self.guesses@.len() - i,
        {
            assert(is_word(self@.guesses[i as int]));
            r.push(evaluate(&self.guesses[i], &self.answer));
            i = i + 1;
        }
        r
    }

    /// The guesses so far, in order.
    pub fn guess_list(&self) -> (r: Vec<Vec<char>>)
        ensures
            r@.map_values(|w: Vec<char>| w@) == self@.guesses,
    {
        let mut r: Vec<Vec<char>> = Vec::new();
        let mut i: usize = 0;
        while i < self.guesses.len()
            invariant
                i <= self.guesses@.len(),
                r@.len() == i,
                forall|k: int| 0 <= k < i ==> #[trigger] r@[k]@ == self.guesses@[k]@,
            decreases self.guesses@.len() - i,
        {
            r.push(copy_word(&self.guesses[i]));
            i = i + 1;
        }
        assert(r@.map_values(|w: Vec<char>| w@) =~= self@.guesses);
        r
    }

    /// The letters typed so far.
    pub fn current(&self) -> (r: Vec<char>)
        ensures
            r@ == self@.current,
    {
        copy_word(&self.curr)
    }

    /// The answer, once the game is over; `None` while it goes on.
    pub fn revealed_answer(&self) -> (r: Option<Vec<char>>)
        requires
            self@.valid(),
        ensures
            match r {
                Some(a) => self@.outcome() != Outcome::InProgress && a@ == self@.answer,
                None => self@.outcome() == Outcome::InProgress,
            },
    {
        if self.outcome() == Outcome::InProgress {
            None
        } else {
            Some(copy_word(&self.answer))
        }
    }
}

/// A game whose latest guess is the answer is won, however many guesses
/// were made.
pub proof fn lemma_won_on_answer(answer: Seq<char>, guesses: Seq<Seq<char>>)
    requires
        guesses.len() > 0,
        guesses.last() == answer,
    ensures
        outcome_of(answer, guesses) == Outcome::Won,
{
}

/// Submitting the answer, when the dictionary holds it, wins the game.
pub proof fn lemma_submit_answer_wins(v: GameView)
    requires
        v.valid(),
        v.outcome() == Outcome::InProgress,
        v.current == v.answer,
        v.dictionary.contains(v.answer),
    ensures
        v.after_submit().outcome() == Outcome::Won,
{
}

/// A game with six guesses, none of them the answer, is lost.
pub proof fn lemma_lost_after_six(answer: Seq<char>, guesses: Seq<Seq<char>>)
    requires
        guesses.len() == MAX_GUESSES,
        forall|i: int| 0 <= i < guesses.len() ==> #[trigger] guesses[i] != answer,
    ensures
        outcome_of(answer, guesses) == Outcome::Lost,
{
    assert(guesses.last() == guesses[guesses.len() - 1]);
}

/// However many characters are typed, at most five letters stand typed.
pub proof fn lemma_inputs_bounded(v: GameView, cs: Seq<char>)
    requires
        v.valid(),
    ensures
        v.after_inputs(cs).valid(),
        v.after_inputs(cs).current.len() <= WORD_LEN,
    decreases cs.len(),
{
    if cs.len() > 0 {
        lemma_inputs_bounded(v, cs.drop_last());
        let w = v.after_inputs(cs.drop_last());
        let c = cs.last();
        if w.outcome() == Outcome::InProgress && w.current.len() < WORD_LEN && is_ascii_letter(c) {
            lemma_lower_letter(c);
        }
    }
}

} // verus!
