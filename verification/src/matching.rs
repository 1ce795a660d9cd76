//! Scoring a guess against the secret word, letter by letter.

use vstd::prelude::*;
use crate::text::chars_of;

verus! {

/// How one letter of a guess relates to the secret word.
#[derive(Debug, Copy, Clone, PartialEq, Eq, Structural)]
pub enum Match {
    /// The secret has this letter at this position.
    FULL,
    /// The secret has this letter, but not at this position.
    HALF,
    /// The secret does not have this letter.
    NONE,
}

/// The score of position `i` of `guess` against `secret`.
///
/// The test for `HALF` looks at the whole secret and uses nothing up: a letter
/// that the guess repeats is scored at each of its positions on its own.
/// A position that either word lacks scores `NONE`.
pub open spec fn letter_match(secret: Seq<char>, guess: Seq<char>, i: int) -> Match {
    if !(0 <= i < guess.len() && i < secret.len()) {
        Match::NONE
    } else if guess[i] == secret[i] {
        Match::FULL
    } else if secret.contains(guess[i]) {
        Match::HALF
    } else {
        Match::NONE
    }
}

/// The scores of the five positions of `guess` against `secret`.
pub open spec fn matches_of(secret: Seq<char>, guess: Seq<char>) -> Seq<Match> {
    Seq::new(5, |i: int| letter_match(secret, guess, i))
}

/// How many entries of `matches` are `FULL`.
pub open spec fn full_count(matches: Seq<Match>) -> nat {
    matches.filter(|m: Match| m == Match::FULL).len()
}

/// Whether `c` occurs in `chars`.
fn contains_char(chars: &Vec<char>, c: char) -> (found: bool)
    ensures
        found == chars@.contains(c),
{
    let mut i: usize = 0;
    while i < chars.len()
        invariant
            i <= chars.len(),
            forall|j: int| 0 <= j < i ==> chars@[j] != c,
        decreases chars.len() - i,
    {
        if chars[i] == c {
            return true;
        }
        i += 1;
    }
    false
}

/// Scores `guess` against `secret`: the five letter scores, and how many of
/// them are `FULL`.
pub fn evaluate(secret: &str, guess: &str) -> (scored: ([Match; 5], u8))
    ensures
        scored.0@ == matches_of(secret@, guess@),
        scored.1 == full_count(matches_of(secret@, guess@)),
{
    let secret_chars = chars_of(secret);
    let guess_chars = chars_of(guess);
    let mut matches = [Match::NONE; 5];
    let mut full_match_count: u8 = 0;
    let mut i: usize = 0;
    while i < 5
        invariant
            i <= 5,
            secret_chars@ == secret@,
            guess_chars@ == guess@,
            matches@.take(i as int) == matches_of(secret@, guess@).take(i as int),
            full_match_count == full_count(matches@.take(i as int)),
            full_match_count <= i,
        decreases 5 - i,
    {
        let ghost before = matches@.take(i as int);
        let m = if i < guess_chars.len() && i < secret_chars.len() {
            let guess_ch = guess_chars[i];
            if guess_ch == secret_chars[i] {
                Match::FULL
            } else if contains_char(&secret_chars, guess_ch) {
                Match::HALF
            } else {
                Match::NONE
            }
        } else {
            Match::NONE
        };
        matches[i] = m;
        if m == Match::FULL {
            full_match_count += 1;
        }
        i += 1;
        proof {
            assert(matches@.take(i as int) == before.push(m));
            before.lemma_filter_len_push(|m: Match| m == Match::FULL, m);
        }
    }
    assert(matches@.take(5) == matches@);
    assert(matches_of(secret@, guess@).take(5) == matches_of(secret@, guess@));
    (matches, full_match_count)
}

/// A word of at least five letters, guessed as itself, scores `FULL` at every
/// position, five in all.
pub proof fn lemma_secret_scores_full(secret: Seq<char>)
    requires
        secret.len() >= 5,
    ensures
        forall|i: int| 0 <= i < 5 ==> matches_of(secret, secret)[i] == Match::FULL,
        full_count(matches_of(secret, secret)) == 5,
{
    let all = matches_of(secret, secret);
    let is_full = |m: Match| m == Match::FULL;
    assert forall|i: int| 0 <= i < all.len() implies is_full(#[trigger] all[i]) by {}
    lemma_all_filter(all, is_full);
}

/// A sequence whose entries all satisfy `pred` is its own filter.
proof fn lemma_all_filter(s: Seq<Match>, pred: spec_fn(Match) -> bool)
    requires
        forall|i: int| 0 <= i < s.len() ==> pred(#[trigger] s[i]),
    ensures
        s.filter(pred) == s,
    decreases s.len(),
{
    reveal(Seq::filter);
    if s.len() > 0 {
        lemma_all_filter(s.drop_last(), pred);
        assert(s.drop_last().push(s.last()) == s);
    }
}

/// A guess none of whose letters occurs in the secret scores `NONE` at every
/// position, with no `FULL` at all.
pub proof fn lemma_foreign_guess_scores_none(secret: Seq<char>, guess: Seq<char>)
    requires
        forall|i: int| 0 <= i < guess.len() ==> !secret.contains(#[trigger] guess[i]),
    ensures
        forall|i: int| 0 <= i < 5 ==> matches_of(secret, guess)[i] == Match::NONE,
        full_count(matches_of(secret, guess)) == 0,
{
    let all = matches_of(secret, guess);
    let is_full = |m: Match| m == Match::FULL;
    assert forall|i: int| 0 <= i < 5 implies all[i] == Match::NONE by {
        if i < guess.len() && i < secret.len() {
            assert(secret.contains(secret[i]));
        }
    }
    all.lemma_all_neg_filter_empty(is_full);
}

} // verus!
