//! What the player types: a guess, or the answer to whether to play again.

use vstd::prelude::*;
use crate::text::{
    all_alphabetic, alphabetic, chars_of, is_word, trimmed, trimmed_chars, uppercase,
    uppercased,
};

verus! {

/// Why a typed guess is turned down.
#[derive(Debug, Copy, Clone, PartialEq, Eq, Structural)]
pub enum GuessError {
    /// Some character of the guess is not alphabetic.
    NotAlphabetic,
    /// The guess is made of alphabetic characters, but not of five.
    WrongLength,
}

impl GuessError {
    /// The line shown to the player for this error.
    pub open spec fn message_text(self) -> Seq<char> {
        match self {
            GuessError::NotAlphabetic => "INFO: Word should contain only alphabets"@,
            GuessError::WrongLength => "INFO: Must provide word of length 5"@,
        }
    }

    /// The line shown to the player for this error.
    pub fn message(&self) -> (line: String)
        ensures
            line@ == self.message_text(),
    {
        match self {
            GuessError::NotAlphabetic => "INFO: Word should contain only alphabets".to_owned(),
            GuessError::WrongLength => "INFO: Must provide word of length 5".to_owned(),
        }
    }
}

/// What becomes of a guess once the white space around it is gone: the
/// characters are looked at first, then their number; a guess that passes
/// both is taken in upper case.
pub open spec fn guess_verdict(text: Seq<char>) -> Result<Seq<char>, GuessError> {
    if !all_alphabetic(text) {
        Err(GuessError::NotAlphabetic)
    } else if text.len() != 5 {
        Err(GuessError::WrongLength)
    } else {
        Ok(uppercased(text))
    }
}

/// What the answer to "play again?" means once the white space around it is
/// gone: `y` goes on, `N` stops, and nothing else is an answer. Both are
/// taken as written: neither `Y` nor `n` is accepted.
pub open spec fn play_again_verdict(text: Seq<char>) -> Option<bool> {
    if text == seq!['y'] {
        Some(true)
    } else if text == seq!['N'] {
        Some(false)
    } else {
        None
    }
}

/// An accepted guess is a word of the game.
pub proof fn lemma_accepted_guess_is_word(text: Seq<char>)
    requires
        guess_verdict(text) is Ok,
    ensures
        is_word(guess_verdict(text)->Ok_0),
{
    assert(is_word(uppercased(text)));
}

/// Checks the characters of a guess and puts them in upper case.
fn verdict_on(chars: &Vec<char>) -> (r: Result<String, GuessError>)
    ensures
        match r {
            Ok(word) => guess_verdict(chars@) == Ok::<Seq<char>, GuessError>(word@),
            Err(e) => guess_verdict(chars@) == Err::<Seq<char>, GuessError>(e),
        },
{
    if !alphabetic(chars) {
        Err(GuessError::NotAlphabetic)
    } else if chars.len() != 5 {
        Err(GuessError::WrongLength)
    } else {
        Ok(uppercase(chars))
    }
}

/// Checks a guess that has no white space around it: `Ok` with the guess in
/// upper case if it is made of five alphabetic characters, else the reason.
pub fn check_guess(text: &str) -> (r: Result<String, GuessError>)
    ensures
        match r {
            Ok(word) => guess_verdict(text@) == Ok::<Seq<char>, GuessError>(word@),
            Err(e) => guess_verdict(text@) == Err::<Seq<char>, GuessError>(e),
        },
        r matches Ok(word) ==> is_word(word@),
{
    proof {
        if guess_verdict(text@) is Ok {
            lemma_accepted_guess_is_word(text@);
        }
    }
    let chars = chars_of(text);
    verdict_on(&chars)
}

/// Checks a line as the player typed it: the white space around it is
/// dropped, and the rest is checked as `check_guess` does.
pub fn input_guess(line: &str) -> (r: Result<String, GuessError>)
    ensures
        match r {
            Ok(word) => guess_verdict(trimmed(line@)) == Ok::<Seq<char>, GuessError>(word@),
            Err(e) => guess_verdict(trimmed(line@)) == Err::<Seq<char>, GuessError>(e),
        },
        r matches Ok(word) ==> is_word(word@),
{
    proof {
        if guess_verdict(trimmed(line@)) is Ok {
            lemma_accepted_guess_is_word(trimmed(line@));
        }
    }
    let chars = trimmed_chars(line);
    verdict_on(&chars)
}

/// Reads the characters of an answer to "play again?".
fn answer_on(chars: &Vec<char>) -> (r: Option<bool>)
    ensures
        r == play_again_verdict(chars@),
{
    if chars.len() == 1 && chars[0] == 'y' {
        assert(chars@ == seq!['y']);
        Some(true)
    } else if chars.len() == 1 && chars[0] == 'N' {
        assert(chars@ == seq!['N']);
        Some(false)
    } else {
        assert(chars@ != seq!['y'] && chars@ != seq!['N']) by {
            assert(seq!['y'].len() == 1 && seq!['y'][0] == 'y');
            assert(seq!['N'].len() == 1 && seq!['N'][0] == 'N');
        }
        None
    }
}

/// Reads an answer that has no white space around it: `Some(true)` to play
/// again, `Some(false)` to stop, `None` where the text is no answer.
pub fn play_again_answer(text: &str) -> (r: Option<bool>)
    ensures
        r == play_again_verdict(text@),
{
    let chars = chars_of(text);
    answer_on(&chars)
}

/// Reads an answer as the player typed it: the white space around it is
/// dropped, and the rest is read as `play_again_answer` does.
pub fn playagain(line: &str) -> (r: Option<bool>)
    ensures
        r == play_again_verdict(trimmed(line@)),
{
    let chars = trimmed_chars(line);
    answer_on(&chars)
}

} // verus!
