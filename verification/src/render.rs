//! How a scored guess and the name of the game look on a terminal.

use vstd::prelude::*;
use vstd::string::StringExecFns;
use crate::matching::Match;
use crate::text::chars_of;

verus! {

/// The terminal sequence that sets the colours for a letter with score `m`:
/// black on green for `FULL`, on yellow for `HALF`, on white for `NONE`.
pub open spec fn style_of(m: Match) -> Seq<char> {
    match m {
        Match::FULL => "\x1b[30;42m"@,
        Match::HALF => "\x1b[30;43m"@,
        Match::NONE => "\x1b[30;47m"@,
    }
}

/// The terminal sequence that sets the colours back.
pub open spec fn style_reset() -> Seq<char> {
    "\x1b[0m"@
}

/// One letter on the terminal: its colours, a blank, the letter, a blank.
pub open spec fn cell(m: Match, letter: char) -> Seq<char> {
    style_of(m) + seq![' ', letter, ' ']
}

/// The first `n` letters of `guess` on the terminal, each with the colours
/// of its score.
pub open spec fn cells(guess: Seq<char>, matches: Seq<Match>, n: nat) -> Seq<char>
    decreases n,
{
    if n == 0 {
        Seq::<char>::empty()
    } else {
        cells(guess, matches, (n - 1) as nat) + cell(matches[n - 1], guess[n - 1])
    }
}

/// How many letters of `guess` are shown: all of them, up to the five that
/// have a score.
pub open spec fn shown(guess: Seq<char>) -> nat {
    if guess.len() < 5 {
        guess.len()
    } else {
        5
    }
}

/// A scored guess on the terminal: its letters, each with the colours of its
/// score, and the colours set back at the end.
pub open spec fn rendered(guess: Seq<char>, matches: Seq<Match>) -> Seq<char> {
    cells(guess, matches, shown(guess)) + style_reset()
}

/// The name of the game on the terminal, each letter on a colour of its own.
pub open spec fn banner_text() -> Seq<char> {
    "\x1b[30;41m W \x1b[30;42m O \x1b[30;43m R \x1b[30;44m D \x1b[30;45m L \x1b[30;46m E \x1b[0m"@
}

/// The three scores have three different colours.
pub proof fn lemma_styles_differ(a: Match, b: Match)
    requires
        a != b,
    ensures
        style_of(a) != style_of(b),
{
    reveal_strlit("\x1b[30;42m");
    reveal_strlit("\x1b[30;43m");
    reveal_strlit("\x1b[30;47m");
    assert(style_of(Match::FULL)[6] == '2');
    assert(style_of(Match::HALF)[6] == '3');
    assert(style_of(Match::NONE)[6] == '7');
}

/// A guess takes eleven characters for each letter shown, and four at the end.
pub proof fn lemma_rendered_len(guess: Seq<char>, matches: Seq<Match>)
    ensures
        rendered(guess, matches).len() == 11 * shown(guess) + 4,
{
    reveal_strlit("\x1b[0m");
    lemma_cells_len(guess, matches, shown(guess));
}

/// Each letter shown takes eleven characters.
proof fn lemma_cells_len(guess: Seq<char>, matches: Seq<Match>, n: nat)
    ensures
        cells(guess, matches, n).len() == 11 * n,
    decreases n,
{
    reveal_strlit("\x1b[30;42m");
    reveal_strlit("\x1b[30;43m");
    reveal_strlit("\x1b[30;47m");
    if n > 0 {
        lemma_cells_len(guess, matches, (n - 1) as nat);
    }
}

/// The colours for a letter with score `m`.
fn style(m: Match) -> (s: &'static str)
    ensures
        s@ == style_of(m),
{
    match m {
        Match::FULL => "\x1b[30;42m",
        Match::HALF => "\x1b[30;43m",
        Match::NONE => "\x1b[30;47m",
    }
}

/// The line that shows `guess` with the scores `match_result`: for each
/// letter its colours, a blank, the letter and a blank, and the colours set
/// back at the end.
pub fn format_match(guess: &String, match_result: [Match; 5]) -> (line: String)
    ensures
        line@ == rendered(guess@, match_result@),
{
    let letters = chars_of(guess.as_str());
    let mut line = String::new();
    let mut i: usize = 0;
    while i < 5 && i < letters.len()
        invariant
            i <= 5,
            i <= letters.len(),
            letters@ == guess@,
            line@ == cells(guess@, match_result@, i as nat),
        decreases 5 - i,
    {
        let ghost before = line@;
        line.append(style(match_result[i]));
        line.push(' ');
        line.push(letters[i]);
        line.push(' ');
        i += 1;
        assert(line@ == before + cell(match_result@[i - 1], guess@[i - 1]));
    }
    line.append("\x1b[0m");
    line
}

/// The name of the game, as shown when a round starts.
pub fn banner() -> (line: &'static str)
    ensures
        line@ == banner_text(),
{
    "\x1b[30;41m W \x1b[30;42m O \x1b[30;43m R \x1b[30;44m D \x1b[30;45m L \x1b[30;46m E \x1b[0m"
}

} // verus!
