//! One round of the game: the secret word, the attempts made, and how an
//! attempt ends.

use vstd::prelude::*;
use crate::catalog::random_word;
use crate::matching::{evaluate, full_count, matches_of, Match};

verus! {

/// The number of attempts at which the game gives a round up for lost.
pub const MAX_ATTEMPTS: u64 = 6;

/// The round in progress, if there is one.
#[derive(Debug)]
pub struct State {
    chosen: Option<String>,
    attempts: u64,
    max_attempts: u64,
}

/// What a `State` holds, as plain values.
pub struct StateView {
    /// The secret word of the round in progress; `None` between rounds.
    pub secret: Option<Seq<char>>,
    /// The attempts made in this round.
    pub attempts: nat,
    /// The number of attempts at which a round is lost.
    pub max_attempts: nat,
}

/// How an attempt ends.
#[derive(Debug, Copy, Clone, PartialEq, Eq, Structural)]
pub enum Outcome {
    /// The guess is the secret word.
    Won,
    /// The guess is wrong and no attempt is left.
    Lost,
    /// The guess is wrong and the round goes on.
    Continue,
}

impl StateView {
    /// The state before the first round.
    pub open spec fn fresh(max_attempts: nat) -> StateView {
        StateView { secret: None, attempts: 0, max_attempts }
    }

    /// The state between two rounds: no secret, no attempt made, the limit
    /// kept.
    pub open spec fn after_reset(self) -> StateView {
        StateView { secret: None, attempts: 0, max_attempts: self.max_attempts }
    }

    /// The state once a round is asked for and `drawn` came out of the word
    /// list: a round in progress goes on untouched.
    pub open spec fn after_begin(self, drawn: Option<Seq<char>>) -> StateView {
        if self.secret is Some {
            self
        } else {
            StateView { secret: drawn, attempts: 0, max_attempts: self.max_attempts }
        }
    }

    /// The state after one more attempt.
    pub open spec fn after_attempt(self) -> StateView {
        StateView { attempts: self.attempts + 1, ..self }
    }

    /// The state after `n` more attempts.
    pub open spec fn after_attempts(self, n: nat) -> StateView
        decreases n,
    {
        if n == 0 {
            self
        } else {
            self.after_attempts((n - 1) as nat).after_attempt()
        }
    }

    /// How the attempt just counted ends, given how many letters of the guess
    /// scored `FULL`: five of them win, whatever the count of attempts; else
    /// the round is lost once the attempts have reached the limit.
    pub open spec fn outcome(self, full_match_count: nat) -> Outcome {
        if full_match_count == 5 {
            Outcome::Won
        } else if self.attempts >= self.max_attempts {
            Outcome::Lost
        } else {
            Outcome::Continue
        }
    }
}

impl View for State {
    type V = StateView;

    closed spec fn view(&self) -> StateView {
        StateView {
            secret: match self.chosen {
                Some(word) => Some(word@),
                None => None,
            },
            attempts: self.attempts as nat,
            max_attempts: self.max_attempts as nat,
        }
    }
}

impl State {
    /// A state with no round in progress, in which a round is lost at
    /// `max_attempts` attempts.
    pub fn init(max_attempts: u64) -> (state: State)
        ensures
            state@ == StateView::fresh(max_attempts as nat),
    {
        State { chosen: None, attempts: 0, max_attempts }
    }

    /// Ends the round: the secret and the count of attempts are cleared, the
    /// limit stays.
    pub fn reset(&mut self)
        ensures
            final(self)@ == old(self)@.after_reset(),
    {
        self.chosen = None;
        self.attempts = 0;
    }

    /// The attempts made in this round.
    pub fn attempts(&self) -> (n: u64)
        ensures
            n == self@.attempts,
    {
        self.attempts
    }

    /// The number of attempts at which a round is lost.
    pub fn max_attempts(&self) -> (n: u64)
        ensures
            n == self@.max_attempts,
    {
        self.max_attempts
    }

    /// The secret word of the round in progress.
    pub fn chosen(&self) -> (secret: Option<&String>)
        ensures
            match secret {
                Some(word) => self@.secret == Some(word@),
                None => self@.secret is None,
            },
    {
        self.chosen.as_ref()
    }

    /// The number shown before the next guess: attempts are counted from one.
    pub fn attempt_no(&self) -> (n: u64)
        requires
            self@.attempts < u64::MAX,
        ensures
            n == self@.attempts + 1,
    {
        self.attempts + 1
    }

    /// Starts a round with the word that came out of the draw, unless one is
    /// in progress. Says whether a round was started.
    pub fn begin_round_with(&mut self, drawn: Option<&String>) -> (started: bool)
        ensures
            started == (old(self)@.secret is None),
            final(self)@ == old(self)@.after_begin(
                match drawn {
                    Some(word) => Some(word@),
                    None => None,
                },
            ),
    {
        if self.chosen.is_none() {
            self.chosen = match drawn {
                Some(word) => Some(word.clone()),
                None => None,
            };
            self.attempts = 0;
            true
        } else {
            false
        }
    }

    /// Starts a round with a word drawn from `words`, unless one is in
    /// progress. Says whether a round was started. An empty list leaves the
    /// new round without a secret.
    pub fn begin_round(&mut self, words: &Vec<String>) -> (started: bool)
        ensures
            started == (old(self)@.secret is None),
            final(self)@ == old(self)@.after_begin(final(self)@.secret),
            started && words.len() == 0 ==> final(self)@.secret is None,
            started && words.len() > 0 ==> final(self)@.secret is Some
                && words.deep_view().contains(final(self)@.secret->Some_0),
    {
        if self.chosen.is_none() {
            let drawn = random_word(words);
            proof {
                if let Some(word) = drawn {
                    let i = choose|i: int| 0 <= i < words@.len() && words@[i] == *word;
                    assert(words.deep_view()[i] == word@);
                }
            }
            self.begin_round_with(drawn)
        } else {
            false
        }
    }

    /// How the attempt just counted ends, given how many letters of the guess
    /// scored `FULL`.
    pub fn outcome(&self, full_match_count: u8) -> (outcome: Outcome)
        ensures
            outcome == self@.outcome(full_match_count as nat),
    {
        if full_match_count == 5 {
            Outcome::Won
        } else if self.attempts >= self.max_attempts {
            Outcome::Lost
        } else {
            Outcome::Continue
        }
    }
}

/// Scores `guess` against the secret of the round in progress and counts the
/// attempt: the five letter scores, and how many of them are `FULL`. Without a
/// round in progress there is nothing to score: the result is `None` and the
/// state stays as it is.
pub fn evaluate_guess(state: &mut State, guess: &String) -> (scored: Option<([Match; 5], u8)>)
    requires
        old(state)@.secret is Some ==> old(state)@.attempts < u64::MAX,
    ensures
        old(state)@.secret is None ==> scored is None && final(state)@ == old(state)@,
        old(state)@.secret matches Some(secret) ==> {
            &&& scored matches Some((matches, full_match_count))
            &&& matches@ == matches_of(secret, guess@)
            &&& full_match_count == full_count(matches_of(secret, guess@))
            &&& final(state)@ == old(state)@.after_attempt()
        },
{
    let scored = match &state.chosen {
        Some(chosen) => evaluate(chosen.as_str(), guess.as_str()),
        None => {
            return None;
        },
    };
    state.attempts += 1;
    Some(scored)
}

/// Counting attempts: `n` attempts after the start of a round leave the count
/// at `n`, and change nothing else.
pub proof fn lemma_attempts_are_counted(start: StateView, n: nat)
    requires
        start.attempts == 0,
    ensures
        start.after_attempts(n) == (StateView { attempts: n, ..start }),
    decreases n,
{
    if n > 0 {
        lemma_attempts_are_counted(start, (n - 1) as nat);
    }
}

/// Within the limit: an attempt made while the round goes on leaves the count
/// of attempts above what it was, and not above the limit.
pub proof fn lemma_attempts_stay_within_limit(state: StateView, full_match_count: nat)
    requires
        state.outcome(full_match_count) == Outcome::Continue,
    ensures
        state.attempts < state.after_attempt().attempts <= state.max_attempts,
{
}

/// Losing: when the `n`-th attempt of a round is a wrong guess, the round is
/// lost if `n` has reached the limit, and goes on if it has not. With a limit
/// of six, the first five wrong guesses go on and the sixth loses.
pub proof fn lemma_wrong_guess_loses_at_limit(start: StateView, n: nat, full_match_count: nat)
    requires
        start.attempts == 0,
        full_match_count != 5,
    ensures
        n >= start.max_attempts ==> start.after_attempts(n).outcome(full_match_count)
            == Outcome::Lost,
        n < start.max_attempts ==> start.after_attempts(n).outcome(full_match_count)
            == Outcome::Continue,
{
    lemma_attempts_are_counted(start, n);
}

/// Winning: five letters that score `FULL` win at once, at any attempt, and
/// the count of attempts is that of the guesses made, no more.
pub proof fn lemma_full_guess_wins(start: StateView, n: nat)
    requires
        start.attempts == 0,
    ensures
        start.after_attempts(n).outcome(5) == Outcome::Won,
        start.after_attempts(n).attempts == n,
{
    lemma_attempts_are_counted(start, n);
}

/// Between rounds: a reset leaves no secret and no attempt and keeps the
/// limit, and the round started next takes whatever word is drawn for it,
/// which need not be the word of the round before.
pub proof fn lemma_reset_then_begin(state: StateView, drawn: Option<Seq<char>>)
    ensures
        state.after_reset() == StateView::fresh(state.max_attempts),
        state.after_reset().after_begin(drawn) == (StateView {
            secret: drawn,
            attempts: 0,
            max_attempts: state.max_attempts,
        }),
{
}

} // verus!
