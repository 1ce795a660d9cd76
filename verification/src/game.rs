//! The game, line by line: what a typed line does to the round.

use vstd::prelude::*;
use crate::matching::{full_count, matches_of, Match};
use crate::prompt::{guess_verdict, input_guess, play_again_verdict, playagain, GuessError};
use crate::state::{evaluate_guess, Outcome, State};
use crate::text::trimmed;

verus! {

/// What a line typed as a guess led to.
#[derive(Debug, PartialEq, Eq)]
pub enum Turn {
    /// The line is no guess, for the reason given: it is asked for again, and
    /// no attempt is counted.
    Rejected(GuessError),
    /// The line is a guess, but no round is in progress: nothing was scored.
    NoActiveSecret,
    /// The guess was scored and counted as an attempt.
    Scored {
        /// The guess, in upper case.
        guess: String,
        /// The scores of its five letters.
        matches: [Match; 5],
        /// How the attempt ends.
        outcome: Outcome,
    },
}

/// Takes a line typed as a guess: a line that is no guess is turned down and
/// leaves the round as it is; a guess is scored against the secret, counted,
/// and the end of the attempt decided.
pub fn play_turn(state: &mut State, line: &str) -> (turn: Turn)
    requires
        old(state)@.secret is Some ==> old(state)@.attempts < u64::MAX,
    ensures
        match guess_verdict(trimmed(line@)) {
            Err(e) => turn == Turn::Rejected(e) && final(state)@ == old(state)@,
            Ok(word) => match old(state)@.secret {
                None => turn is NoActiveSecret && final(state)@ == old(state)@,
                Some(secret) => {
                    &&& turn matches Turn::Scored { guess, matches, outcome }
                    &&& guess@ == word
                    &&& matches@ == matches_of(secret, word)
                    &&& final(state)@ == old(state)@.after_attempt()
                    &&& outcome == final(state)@.outcome(full_count(matches_of(secret, word)))
                },
            },
        },
{
    let guess = match input_guess(line) {
        Ok(guess) => guess,
        Err(e) => {
            return Turn::Rejected(e);
        },
    };
    match evaluate_guess(state, &guess) {
        Some((matches, full_match_count)) => {
            let outcome = state.outcome(full_match_count);
            Turn::Scored { guess, matches, outcome }
        },
        None => Turn::NoActiveSecret,
    }
}

/// Takes a line typed as the answer to "play again?": `y` ends the round, so
/// that the next one can begin, and gives `Some(true)`; `N` gives
/// `Some(false)`; any other line gives `None` and is asked for again. Only
/// `y` changes the state.
pub fn next_round(state: &mut State, line: &str) -> (again: Option<bool>)
    ensures
        again == play_again_verdict(trimmed(line@)),
        again == Some(true) ==> final(state)@ == old(state)@.after_reset(),
        again != Some(true) ==> final(state)@ == old(state)@,
{
    let again = playagain(line);
    if let Some(true) = again {
        state.reset();
    }
    again
}

} // verus!
