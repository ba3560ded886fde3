//! The round state machine and the game session. A round is one play of a
//! single target word: input accumulation, attempt counting, scoring and
//! completion. A session holds the round being played, the language that the
//! player chose and the score, and says when a new word has to be fetched.

use crate::database::{Language, LanguageView, Word};
use crate::grid::{build, is_grid_for, GAME_GRID_SIZE};
use crate::script::{post_process, post_processed, segment, segmented, EmptyWordError};
use crate::units::{units_equal, Unit};
use rand::rngs::StdRng;
use vstd::prelude::*;
use vstd::string::*;

verus! {

/// How many checks a round allows when nothing else is configured.
pub const MAX_ATTEMPTS: u32 = 5;

/// What a call of `check_spelling` found.
#[derive(Clone, Copy, Debug, PartialEq, Eq, Structural)]
pub enum CheckOutcome {
    /// The input spelled the target. The round is over and worth `points`.
    Correct { points: u64 },
    /// The input was wrong and no attempt is left. The round is over.
    OutOfAttempts,
    /// The input was wrong and the player may try again.
    Retry,
    /// The round was over already: nothing was checked and nothing changed.
    Inactive,
}

/// The bonus for spelling the word at the `attempts`-th check: ten at the
/// first, two less with each further check, never less than nothing.
pub open spec fn bonus_points(attempts: int) -> int {
    if attempts == 1 {
        10
    } else if 10 - (attempts - 1) * 2 > 0 {
        10 - (attempts - 1) * 2
    } else {
        0
    }
}

/// What a correct spelling is worth: one point for each unit of the target,
/// and the bonus.
pub open spec fn round_points(target_len: int, attempts: int) -> int {
    target_len + bonus_points(attempts)
}

/// `n`, or the largest `u64` where `n` is beyond it.
pub open spec fn capped(n: int) -> int {
    if n > u64::MAX {
        u64::MAX as int
    } else {
        n
    }
}

/// A round as plain values.
#[verifier::ext_equal]
pub struct RoundView {
    /// The target word as it is shown to the player.
    pub word: Seq<char>,
    /// The target, segmented.
    pub target: Seq<Unit>,
    /// What the player has put together so far.
    pub input: Seq<Unit>,
    /// How many checks were made.
    pub attempts: int,
    /// How many checks the round allows.
    pub max_attempts: int,
    /// The number that a round's attempts are counted from.
    pub current_attempt: int,
    /// Whether the round is over.
    pub completed: bool,
    /// The language the round was built for.
    pub language: LanguageView,
    /// That language's alphabet.
    pub alphabet: Seq<Unit>,
    /// The letters on screen.
    pub grid: Seq<Unit>,
    /// How many slots the grid has.
    pub grid_size: int,
}

impl RoundView {
    /// What holds of every round: the input is never longer than the target,
    /// and a round that is still active has an attempt left.
    pub open spec fn wf(self) -> bool {
        &&& self.input.len() <= self.target.len()
        &&& 0 <= self.attempts <= u32::MAX
        &&& 0 <= self.max_attempts <= u32::MAX
        &&& !self.completed ==> self.attempts == 0 || self.attempts < self.max_attempts
    }

    /// The round that a session starts with: nothing to spell yet.
    pub open spec fn initial(language: LanguageView) -> RoundView {
        RoundView {
            word: Seq::empty(),
            target: Seq::empty(),
            input: Seq::empty(),
            attempts: 0,
            max_attempts: MAX_ATTEMPTS as int,
            current_attempt: 1,
            completed: false,
            language,
            alphabet: Seq::empty(),
            grid: Seq::empty(),
            grid_size: GAME_GRID_SIZE as int,
        }
    }

    /// Whether one more unit can be put in.
    pub open spec fn accepts_letter(self) -> bool {
        !self.completed && self.input.len() < self.target.len()
    }

    /// The round after `unit` was tapped: the unit is appended where the round
    /// takes one, and nothing changes where it does not.
    pub open spec fn add_letter(self, unit: Unit) -> RoundView {
        if self.accepts_letter() {
            RoundView { input: self.input.push(unit), ..self }
        } else {
            self
        }
    }

    /// The round after the last unit was taken back, if there was one.
    pub open spec fn remove_last_letter(self) -> RoundView {
        if self.input.len() == 0 {
            self
        } else {
            RoundView { input: self.input.drop_last(), ..self }
        }
    }

    /// What a check finds on this round.
    pub open spec fn outcome(self) -> CheckOutcome {
        if self.completed {
            CheckOutcome::Inactive
        } else if self.input == self.target {
            CheckOutcome::Correct {
                points: capped(round_points(self.target.len() as int, self.attempts + 1)) as u64,
            }
        } else if self.attempts + 1 >= self.max_attempts {
            CheckOutcome::OutOfAttempts
        } else {
            CheckOutcome::Retry
        }
    }

    /// The round after a check.
    pub open spec fn check_spelling(self) -> RoundView {
        match self.outcome() {
            CheckOutcome::Inactive => self,
            CheckOutcome::Retry => RoundView { attempts: self.attempts + 1, ..self },
            _ => RoundView { attempts: self.attempts + 1, completed: true, ..self },
        }
    }

    /// A fresh round on a new word.
    pub open spec fn reset_for_next_word(
        self,
        word: Seq<char>,
        target: Seq<Unit>,
        grid: Seq<Unit>,
    ) -> RoundView {
        RoundView {
            word,
            target,
            input: Seq::empty(),
            attempts: 0,
            current_attempt: 1,
            completed: false,
            grid,
            ..self
        }
    }
}

/// Whatever the player does, a round stays well-formed: the input never
/// outgrows the target.
pub proof fn lemma_round_stays_well_formed(round: RoundView, unit: Unit)
    requires
        round.wf(),
    ensures
        round.add_letter(unit).wf(),
        round.remove_last_letter().wf(),
        round.check_spelling().wf(),
{
}

/// A round that is over stays over and takes no more letters or checks. Only
/// a new word makes it active again.
pub proof fn lemma_completed_is_final(round: RoundView, unit: Unit)
    requires
        round.completed,
    ensures
        round.add_letter(unit) == round,
        round.remove_last_letter().completed,
        round.check_spelling() == round,
        round.outcome() == CheckOutcome::Inactive,
{
}

/// A check of an active round counts one attempt, whatever it finds, and a
/// round is over after as many wrong checks as it allows.
pub proof fn lemma_check_counts_one_attempt(round: RoundView)
    requires
        round.wf(),
        !round.completed,
    ensures
        round.check_spelling().attempts == round.attempts + 1,
        round.check_spelling().attempts <= round.max_attempts || round.attempts == 0,
        round.check_spelling().completed <==> round.input == round.target || round.attempts + 1
            >= round.max_attempts,
{
}

/// One play of a single target word.
#[derive(Debug)]
pub struct GameState {
    current_word: String,
    target: Vec<String>,
    user_input: Vec<String>,
    attempts: u32,
    max_attempts: u32,
    current_attempt: u32,
    is_completed: bool,
    language: Language,
    language_letters: Vec<String>,
    game_letters: Vec<String>,
    game_grid_size: usize,
}

impl View for GameState {
    type V = RoundView;

    closed spec fn view(&self) -> RoundView {
        RoundView {
            word: self.current_word@,
            target: self.target.deep_view(),
            input: self.user_input.deep_view(),
            attempts: self.attempts as int,
            max_attempts: self.max_attempts as int,
            current_attempt: self.current_attempt as int,
            completed: self.is_completed,
            language: self.language@,
            alphabet: self.language_letters.deep_view(),
            grid: self.game_letters.deep_view(),
            grid_size: self.game_grid_size as int,
        }
    }
}

impl GameState {
    #[verifier::type_invariant]
    spec fn inv(&self) -> bool {
        self@.wf()
    }

    /// A round for `language` with nothing to spell yet: active, no input, no
    /// attempt made, five attempts allowed.
    pub fn new(language: Language) -> (state: Self)
        ensures
            state@ == RoundView::initial(language@),
            state@.wf(),
    {
        GameState::with_max_attempts(language, MAX_ATTEMPTS)
    }

    /// A round like that of `new`, but one that allows `max_attempts` checks.
    pub fn with_max_attempts(language: Language, max_attempts: u32) -> (state: Self)
        ensures
            state@ == (RoundView {
                max_attempts: max_attempts as int,
                ..RoundView::initial(language@)
            }),
            state@.wf(),
    {
        let state = GameState {
            language,
            current_word: String::new(),
            target: Vec::new(),
            user_input: Vec::new(),
            attempts: 0,
            max_attempts,
            current_attempt: 1,
            is_completed: false,
            language_letters: Vec::new(),
            game_letters: Vec::new(),
            game_grid_size: GAME_GRID_SIZE,
        };
        assert(state@ =~= (RoundView {
            max_attempts: max_attempts as int,
            ..RoundView::initial(language@)
        }));
        state
    }

    /// Appends `letter` to the input, unless the round is over or the input is
    /// as long as the target already: then nothing changes.
    pub fn add_letter(&mut self, letter: &str)
        ensures
            final(self)@ == old(self)@.add_letter(letter@),
            final(self)@.wf(),
    {
        proof {
            use_type_invariant(&*self);
        }
        if !self.is_completed && self.user_input.len() < self.target.len() {
            let mut input: Vec<String> = Vec::new();
            core::mem::swap(&mut self.user_input, &mut input);
            let ghost before = input.deep_view();
            input.push(String::from_str(letter));
            assert(input.deep_view() =~= before.push(letter@));
            core::mem::swap(&mut self.user_input, &mut input);
        }
    }

    /// Takes the last unit off the input, whole; nothing changes where the
    /// input is empty.
    pub fn remove_last_letter(&mut self)
        ensures
            final(self)@ == old(self)@.remove_last_letter(),
            final(self)@.wf(),
    {
        proof {
            use_type_invariant(&*self);
        }
        if self.user_input.len() > 0 {
            let mut input: Vec<String> = Vec::new();
            core::mem::swap(&mut self.user_input, &mut input);
            let ghost before = input.deep_view();
            input.pop();
            assert(input.deep_view() =~= before.drop_last());
            core::mem::swap(&mut self.user_input, &mut input);
        }
    }

    /// Checks the input against the target, unit by unit. On an active round
    /// this counts one attempt and says what was found; a round that is over
    /// is left as it is.
    pub fn check_spelling(&mut self) -> (outcome: CheckOutcome)
        ensures
            outcome == old(self)@.outcome(),
            final(self)@ == old(self)@.check_spelling(),
            final(self)@.wf(),
            !old(self)@.completed ==> final(self)@.attempts == old(self)@.attempts + 1,
            old(self)@.completed ==> final(self)@ == old(self)@ && outcome
                == CheckOutcome::Inactive,
    {
        proof {
            use_type_invariant(&*self);
        }
        if self.is_completed {
            return CheckOutcome::Inactive;
        }
        let attempts: u32 = self.attempts + 1;
        if units_equal(&self.user_input, &self.target) {
            let points = points_for(self.target.len(), attempts);
            self.is_completed = true;
            self.attempts = attempts;
            CheckOutcome::Correct { points }
        } else if attempts >= self.max_attempts {
            self.is_completed = true;
            self.attempts = attempts;
            CheckOutcome::OutOfAttempts
        } else {
            self.attempts = attempts;
            CheckOutcome::Retry
        }
    }

    /// Starts a fresh round on a new word: the target and the grid are
    /// replaced, the input is cleared, no attempt is made yet and the round is
    /// active again.
    pub fn reset_for_next_word(
        &mut self,
        next_word: String,
        target_units: Vec<String>,
        grid: Vec<String>,
    )
        ensures
            final(self)@ == old(self)@.reset_for_next_word(
                next_word@,
                target_units.deep_view(),
                grid.deep_view(),
            ),
            final(self)@.wf(),
    {
        proof {
            use_type_invariant(&*self);
        }
        self.user_input = Vec::new();
        assert(self.user_input.deep_view() =~= Seq::<Unit>::empty());
        self.target = target_units;
        self.current_word = next_word;
        self.attempts = 0;
        self.current_attempt = 1;
        self.is_completed = false;
        self.game_letters = grid;
    }

    /// Makes `language` the language that the round is played in.
    pub fn set_language(&mut self, language: Language)
        ensures
            final(self)@ == (RoundView { language: language@, ..old(self)@ }),
            final(self)@.wf(),
    {
        proof {
            use_type_invariant(&*self);
        }
        self.language = language;
    }

    /// Replaces the alphabet that distractors are drawn from.
    pub fn set_language_letters(&mut self, letters: Vec<String>)
        ensures
            final(self)@ == (RoundView { alphabet: letters.deep_view(), ..old(self)@ }),
            final(self)@.wf(),
    {
        proof {
            use_type_invariant(&*self);
        }
        self.language_letters = letters;
    }

    /// Replaces the letters on screen.
    pub fn set_game_letters(&mut self, letters: Vec<String>)
        ensures
            final(self)@ == (RoundView { grid: letters.deep_view(), ..old(self)@ }),
            final(self)@.wf(),
    {
        proof {
            use_type_invariant(&*self);
        }
        self.game_letters = letters;
    }
}

impl GameState {
    /// The target word, for display.
    pub fn current_word(&self) -> (word: &String)
        ensures
            word@ == self@.word,
    {
        &self.current_word
    }

    /// The units that spell the target.
    pub fn target_units(&self) -> (units: &Vec<String>)
        ensures
            units.deep_view() == self@.target,
    {
        &self.target
    }

    /// What the player has put together so far; never more units than the
    /// target has.
    pub fn user_input(&self) -> (units: &Vec<String>)
        ensures
            units.deep_view() == self@.input,
            units.len() <= self@.target.len(),
    {
        proof {
            use_type_invariant(self);
        }
        &self.user_input
    }

    /// How many checks were made in this round.
    pub fn attempts(&self) -> (n: u32)
        ensures
            n == self@.attempts,
    {
        self.attempts
    }

    /// How many checks the round allows.
    pub fn max_attempts(&self) -> (n: u32)
        ensures
            n == self@.max_attempts,
    {
        self.max_attempts
    }

    /// How many checks are left.
    pub fn attempts_remaining(&self) -> (n: u32)
        ensures
            n == if self@.attempts < self@.max_attempts {
                self@.max_attempts - self@.attempts
            } else {
                0
            },
    {
        if self.attempts < self.max_attempts {
            self.max_attempts - self.attempts
        } else {
            0
        }
    }

    /// The number that the round's attempts are counted from.
    pub fn current_attempt(&self) -> (n: u32)
        ensures
            n == self@.current_attempt,
    {
        self.current_attempt
    }

    /// Whether the round is over.
    pub fn is_completed(&self) -> (completed: bool)
        ensures
            completed == self@.completed,
    {
        self.is_completed
    }

    /// The language that the round was built for.
    pub fn language(&self) -> (language: &Language)
        ensures
            language@ == self@.language,
    {
        &self.language
    }

    /// The alphabet that distractors are drawn from.
    pub fn language_letters(&self) -> (letters: &Vec<String>)
        ensures
            letters.deep_view() == self@.alphabet,
    {
        &self.language_letters
    }

    /// The letters on screen.
    pub fn game_letters(&self) -> (letters: &Vec<String>)
        ensures
            letters.deep_view() == self@.grid,
    {
        &self.game_letters
    }

    /// How many slots the grid has.
    pub fn game_grid_size(&self) -> (n: usize)
        ensures
            n == self@.grid_size,
    {
        self.game_grid_size
    }
}

/// The points for spelling a target of `target_len` units at the
/// `attempts`-th check.
fn points_for(target_len: usize, attempts: u32) -> (points: u64)
    requires
        attempts >= 1,
    ensures
        points == capped(round_points(target_len as int, attempts as int)),
{
    let bonus: u64 = if attempts == 1 {
        10
    } else if attempts >= 6 {
        0
    } else {
        10 - ((attempts - 1) * 2) as u64
    };
    let base: u64 = target_len as u64;
    if base > u64::MAX - bonus {
        u64::MAX
    } else {
        base + bonus
    }
}

/// What a round on `word` is played with: the word as it is shown, and the
/// units that spell it.
fn prepare(word: &str, language: &Language) -> (res: Result<(String, Vec<String>), EmptyWordError>)
    ensures
        match res {
            Ok((text, units)) => {
                &&& text@ == post_processed(word@, language@)
                &&& units.deep_view() == segmented(word@, language@)
                &&& units.len() > 0
            },
            Err(_) => segmented(word@, language@).len() == 0,
        },
{
    let units = segment(word, language)?;
    let text = post_process(word, language)?;
    Ok((text, units))
}

/// Why a word that arrived was not played.
#[derive(Clone, Copy, Debug, PartialEq, Eq, Structural)]
pub enum SessionError {
    /// The word gives nothing to spell. The data layer has to supply another.
    EmptyWord,
    /// The word belongs to a language that the session has left since it was
    /// asked for. It is dropped and nobody needs to hear of it.
    StaleResultIgnored,
}

/// A session as plain values.
#[verifier::ext_equal]
pub struct SessionView {
    /// The round being played.
    pub round: RoundView,
    /// The language that the player chose last.
    pub language: LanguageView,
    /// The points scored so far.
    pub score: int,
}

impl SessionView {
    /// What holds of every session: its round is well-formed and its score is
    /// a number that was counted up from nothing.
    pub open spec fn wf(self) -> bool {
        self.round.wf() && 0 <= self.score <= u64::MAX
    }

    /// The session that a game starts with.
    pub open spec fn initial(language: LanguageView) -> SessionView {
        SessionView { round: RoundView::initial(language), language, score: 0 }
    }

    /// Whether the data layer has to fetch a word and the alphabet: there is
    /// nothing to spell yet, the round is over, or the player has chosen
    /// another language than the round's.
    pub open spec fn needs_word(self) -> bool {
        ||| self.round.target.len() == 0
        ||| self.round.completed
        ||| self.round.language.id != self.language.id
    }

    /// The session after a check: the round has moved on, and a correct
    /// spelling has added its points to the score.
    pub open spec fn check_spelling(self) -> SessionView {
        SessionView {
            round: self.round.check_spelling(),
            score: match self.round.outcome() {
                CheckOutcome::Correct { points } => capped(self.score + points),
                _ => self.score,
            },
            ..self
        }
    }

    /// Whether `next` is this session with a fresh round on `word`, played
    /// over `alphabet`.
    pub open spec fn starts_round(self, next: SessionView, word: Seq<char>, alphabet: Seq<Unit>) -> bool {
        let target = segmented(word, self.language);
        &&& next.language == self.language
        &&& next.score == self.score
        &&& next.round == (RoundView {
            language: self.language,
            alphabet,
            ..self.round.reset_for_next_word(
                post_processed(word, self.language),
                target,
                next.round.grid,
            )
        })
        &&& is_grid_for(next.round.grid, target, alphabet, self.round.grid_size)
    }
}

/// A check never lowers the score, and raises it only where it finds the
/// spelling correct.
pub proof fn lemma_score_grows_on_correct_only(session: SessionView)
    requires
        session.wf(),
    ensures
        session.check_spelling().score >= session.score,
        session.check_spelling().score > session.score ==> session.round.outcome() is Correct,
        session.check_spelling().wf(),
{
}

/// A play session: the language that the player chose, the round being
/// played and the score.
#[derive(Debug)]
pub struct GameContext {
    state: GameState,
    current_language: Language,
    score: u64,
}

impl View for GameContext {
    type V = SessionView;

    closed spec fn view(&self) -> SessionView {
        SessionView {
            round: self.state@,
            language: self.current_language@,
            score: self.score as int,
        }
    }
}

impl GameContext {
    /// A session in `language`, with no word yet and no points.
    pub fn new(language: Language) -> (session: Self)
        ensures
            session@ == SessionView::initial(language@),
            session@.wf(),
    {
        GameContext { state: GameState::new(language.clone()), current_language: language, score: 0 }
    }

    /// Puts `letter` into the round's input, if the round takes one.
    pub fn add_letter(&mut self, letter: &str)
        ensures
            final(self)@ == (SessionView { round: old(self)@.round.add_letter(letter@), ..old(self)@ }),
            final(self)@.wf(),
    {
        self.state.add_letter(letter);
    }

    /// Takes the last unit off the round's input.
    pub fn remove_last_letter(&mut self)
        ensures
            final(self)@ == (SessionView {
                round: old(self)@.round.remove_last_letter(),
                ..old(self)@
            }),
            final(self)@.wf(),
    {
        self.state.remove_last_letter();
    }

    /// Checks the round's input. A correct spelling adds its points to the
    /// score, which stops at the largest `u64`; nothing else ever changes the
    /// score.
    pub fn check_spelling(&mut self) -> (outcome: CheckOutcome)
        ensures
            outcome == old(self)@.round.outcome(),
            final(self)@ == old(self)@.check_spelling(),
            final(self)@.score >= old(self)@.score,
            final(self)@.score > old(self)@.score ==> outcome is Correct,
            final(self)@.wf(),
    {
        let outcome = self.state.check_spelling();
        if let CheckOutcome::Correct { points } = outcome {
            self.score = if points > u64::MAX - self.score {
                u64::MAX
            } else {
                self.score + points
            };
        }
        outcome
    }

    /// Makes `language` the session's language. The round stays as it is until
    /// a word of the new language arrives; until then the session says that it
    /// needs one.
    pub fn set_language(&mut self, language: &Language)
        ensures
            final(self)@ == (SessionView { language: language@, ..old(self)@ }),
            final(self)@.wf(),
    {
        proof {
            use_type_invariant(&self.state);
        }
        self.current_language = language.clone();
    }

    /// Whether the data layer has to fetch a word and the alphabet.
    pub fn needs_word(&self) -> (needed: bool)
        ensures
            needed == self@.needs_word(),
    {
        self.state.target_units().len() == 0 || self.state.is_completed()
            || !self.state.language().same_as(&self.current_language)
    }

    /// Replaces the alphabet that the next grid draws its distractors from.
    pub fn set_language_letters(&mut self, letters: Vec<String>)
        ensures
            final(self)@ == (SessionView {
                round: RoundView { alphabet: letters.deep_view(), ..old(self)@.round },
                ..old(self)@
            }),
            final(self)@.wf(),
    {
        self.state.set_language_letters(letters);
    }

    /// Starts a round on `next_word` in the session's language, over the
    /// alphabet that the session holds: the word is segmented, a grid is built
    /// for it and the round begins afresh. A word that gives nothing to spell
    /// is refused and the session stays as it is.
    pub fn reset_for_next_word(&mut self, next_word: String, rng: &mut StdRng) -> (res: Result<
        (),
        SessionError,
    >)
        ensures
            res is Ok <==> segmented(next_word@, old(self)@.language).len() > 0,
            res is Err ==> res == Err::<(), SessionError>(SessionError::EmptyWord) && final(self)@
                == old(self)@,
            res is Ok ==> old(self)@.starts_round(
                final(self)@,
                next_word@,
                old(self)@.round.alphabet,
            ),
            final(self)@.wf(),
    {
        proof {
            use_type_invariant(&self.state);
        }
        match prepare(next_word.as_str(), &self.current_language) {
            Ok((text, units)) => {
                self.play(text, units, rng);
                Ok(())
            },
            Err(_) => Err(SessionError::EmptyWord),
        }
    }

    /// Takes in what the data layer fetched: a word and the alphabet of its
    /// language. This is the one entry for every fetch that succeeded, be it
    /// the first, one after a change of language or one for the next word.
    ///
    /// A word of another language than the session's is a late answer to a
    /// request that a change of language has overtaken: it is dropped and the
    /// round stays as it is. So does a word that gives nothing to spell.
    pub fn on_word_and_alphabet_ready(
        &mut self,
        word: &Word,
        alphabet: Vec<String>,
        rng: &mut StdRng,
    ) -> (res: Result<(), SessionError>)
        ensures
            res is Ok <==> word.language_id == old(self)@.language.id && segmented(
                word.word@,
                old(self)@.language,
            ).len() > 0,
            res == Err::<(), SessionError>(SessionError::StaleResultIgnored) <==> word.language_id
                != old(self)@.language.id,
            res == Err::<(), SessionError>(SessionError::EmptyWord) <==> word.language_id == old(
                self,
            )@.language.id && segmented(word.word@, old(self)@.language).len() == 0,
            res is Err ==> final(self)@ == old(self)@,
            res is Ok ==> old(self)@.starts_round(final(self)@, word.word@, alphabet.deep_view()),
            final(self)@.wf(),
    {
        proof {
            use_type_invariant(&self.state);
        }
        if word.language_id != self.current_language.id {
            return Err(SessionError::StaleResultIgnored);
        }
        match prepare(word.word.as_str(), &self.current_language) {
            Ok((text, units)) => {
                self.state.set_language_letters(alphabet);
                self.play(text, units, rng);
                Ok(())
            },
            Err(_) => Err(SessionError::EmptyWord),
        }
    }

    /// Begins the round on `text`, spelled by `units`, over the alphabet that
    /// the session holds.
    fn play(&mut self, text: String, units: Vec<String>, rng: &mut StdRng)
        ensures
            final(self)@.language == old(self)@.language,
            final(self)@.score == old(self)@.score,
            final(self)@.round == (RoundView {
                language: old(self)@.language,
                ..old(self)@.round.reset_for_next_word(
                    text@,
                    units.deep_view(),
                    final(self)@.round.grid,
                )
            }),
            is_grid_for(
                final(self)@.round.grid,
                units.deep_view(),
                old(self)@.round.alphabet,
                old(self)@.round.grid_size,
            ),
            final(self)@.wf(),
    {
        let grid = build(&units, self.state.language_letters(), self.state.game_grid_size(), rng);
        self.state.set_language(self.current_language.clone());
        self.state.reset_for_next_word(text, units, grid);
    }

    /// The word being spelled, for display.
    pub fn get_current_word(&self) -> (word: String)
        ensures
            word@ == self@.round.word,
    {
        self.state.current_word().clone()
    }

    /// The session's language.
    pub fn get_language(&self) -> (language: Language)
        ensures
            language@ == self@.language,
    {
        self.current_language.clone()
    }

    /// The points scored so far.
    pub fn score(&self) -> (points: u64)
        ensures
            points == self@.score,
    {
        self.score
    }

    /// The round being played.
    pub fn state(&self) -> (round: &GameState)
        ensures
            round@ == self@.round,
    {
        &self.state
    }
}

} // verus!
