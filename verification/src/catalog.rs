//! The word list: which lines of a text are words of the game, and the draw
//! of one of them.

use rand::seq::SliceRandom;
use rand::thread_rng;
use vstd::prelude::*;
use crate::text::{alphabetic, chars_of, is_candidate, is_word, uppercase, uppercased};

verus! {

/// Why a text gives no word list.
#[derive(Debug, Copy, Clone, PartialEq, Eq, Structural)]
pub enum CatalogError {
    /// No line of the text is a word.
    EmptyCatalog,
}

/// The lines of `text`: the pieces between its line feeds. A text with `n`
/// line feeds has `n + 1` lines, the last of them empty where the text ends
/// in a line feed.
pub open spec fn split_lines(text: Seq<char>) -> Seq<Seq<char>>
    decreases text.len(),
{
    if text.len() == 0 {
        seq![Seq::<char>::empty()]
    } else {
        let before = split_lines(text.drop_last());
        if text.last() == '\n' {
            before.push(Seq::<char>::empty())
        } else {
            before.drop_last().push(before.last().push(text.last()))
        }
    }
}

/// `lines` put together again, with a line feed between each two.
pub open spec fn join_lines(lines: Seq<Seq<char>>) -> Seq<char>
    decreases lines.len(),
{
    if lines.len() == 0 {
        Seq::<char>::empty()
    } else if lines.len() == 1 {
        lines[0]
    } else {
        join_lines(lines.drop_last()) + seq!['\n'] + lines.last()
    }
}

/// The word list `earlier` after one more line: a line of five alphabetic
/// characters whose upper-case form is not yet in the list adds it at its end,
/// and no other line changes the list.
pub open spec fn with_line(earlier: Seq<Seq<char>>, line: Seq<char>) -> Seq<Seq<char>> {
    if is_candidate(line) && !earlier.contains(uppercased(line)) {
        earlier.push(uppercased(line))
    } else {
        earlier
    }
}

/// The words that `lines` give: the upper-case form of each line of five
/// alphabetic characters, in the order of the lines, each word once.
pub open spec fn select_words(lines: Seq<Seq<char>>) -> Seq<Seq<char>>
    decreases lines.len(),
{
    if lines.len() == 0 {
        Seq::<Seq<char>>::empty()
    } else {
        with_line(select_words(lines.drop_last()), lines.last())
    }
}

/// The word list that `text` gives.
pub open spec fn catalog_of(text: Seq<char>) -> Seq<Seq<char>> {
    select_words(split_lines(text))
}

/// A word list as the game wants it: words only, none of them twice.
pub open spec fn is_catalog(words: Seq<Seq<char>>) -> bool {
    &&& forall|i: int| 0 <= i < words.len() ==> is_word(#[trigger] words[i])
    &&& words.no_duplicates()
}

/// A text has at least one line, none of its lines holds a line feed, and
/// the lines joined by line feeds are the text again.
pub proof fn lemma_split_lines(text: Seq<char>)
    ensures
        split_lines(text).len() >= 1,
        forall|i: int, j: int|
            0 <= i < split_lines(text).len() && 0 <= j < split_lines(text)[i].len()
                ==> #[trigger] split_lines(text)[i][j] != '\n',
        join_lines(split_lines(text)) == text,
    decreases text.len(),
{
    if text.len() > 0 {
        let shorter = text.drop_last();
        let before = split_lines(shorter);
        let lines = split_lines(text);
        lemma_split_lines(shorter);
        if text.last() == '\n' {
            assert(lines.drop_last() == before);
            assert(join_lines(lines) == shorter + seq!['\n'] + lines.last());
            assert(shorter + seq!['\n'] + lines.last() == text);
        } else {
            let head = before.drop_last();
            assert(lines.drop_last() == head);
            if before.len() == 1 {
                assert(before[0] == shorter);
                assert(lines[0] == shorter.push(text.last()));
                assert(shorter.push(text.last()) == text);
            } else {
                assert(join_lines(before) == join_lines(head) + seq!['\n'] + before.last());
                let joined = join_lines(head) + seq!['\n'];
                let grown = before.last().push(text.last());
                assert(join_lines(lines) == joined + grown);
                assert(joined + grown == (joined + before.last()).push(text.last()));
                assert(shorter.push(text.last()) == text);
            }
        }
    }
}

/// The words that lines give form a word list as the game wants it, and a
/// word is among them exactly if it is the upper-case form of a line of five
/// alphabetic characters.
pub proof fn lemma_select_words(lines: Seq<Seq<char>>)
    ensures
        is_catalog(select_words(lines)),
        forall|word: Seq<char>| #[trigger]
            select_words(lines).contains(word) <==> exists|i: int|
                0 <= i < lines.len() && is_candidate(#[trigger] lines[i]) && uppercased(lines[i])
                    == word,
    decreases lines.len(),
{
    if lines.len() > 0 {
        let shorter = lines.drop_last();
        let earlier = select_words(shorter);
        let line = lines.last();
        let words = select_words(lines);
        lemma_select_words(shorter);
        if is_candidate(line) {
            assert(is_word(uppercased(line)));
        }
        assert forall|word: Seq<char>| #[trigger]
            words.contains(word) <==> exists|i: int|
                0 <= i < lines.len() && is_candidate(#[trigger] lines[i]) && uppercased(lines[i])
                    == word by {
            if words.contains(word) {
                if earlier.contains(word) {
                    let i = choose|i: int|
                        0 <= i < shorter.len() && is_candidate(#[trigger] shorter[i])
                            && uppercased(shorter[i]) == word;
                    assert(lines[i] == shorter[i]);
                } else {
                    let k = choose|k: int| 0 <= k < words.len() && words[k] == word;
                    if k < earlier.len() {
                        assert(earlier[k] == word);
                    }
                    assert(is_candidate(lines[lines.len() - 1]));
                }
            }
            if exists|i: int|
                0 <= i < lines.len() && is_candidate(#[trigger] lines[i]) && uppercased(lines[i])
                    == word {
                let i = choose|i: int|
                    0 <= i < lines.len() && is_candidate(#[trigger] lines[i]) && uppercased(
                        lines[i],
                    ) == word;
                if i < shorter.len() {
                    assert(shorter[i] == lines[i]);
                    assert(earlier.contains(word));
                    let k = choose|k: int| 0 <= k < earlier.len() && earlier[k] == word;
                    assert(words[k] == word);
                } else if earlier.contains(word) {
                    let k = choose|k: int| 0 <= k < earlier.len() && earlier[k] == word;
                    assert(words[k] == word);
                } else {
                    assert(words[words.len() - 1] == word);
                }
            }
        }
    }
}

/// The word list of any text is a word list as the game wants it.
pub proof fn lemma_catalog_of(text: Seq<char>)
    ensures
        is_catalog(catalog_of(text)),
{
    lemma_select_words(split_lines(text));
}

/// Whether `word` is among `words`.
fn has_word(words: &Vec<String>, word: &String) -> (found: bool)
    ensures
        found == words.deep_view().contains(word@),
{
    let mut i: usize = 0;
    while i < words.len()
        invariant
            i <= words.len(),
            forall|j: int| 0 <= j < i ==> words.deep_view()[j] != word@,
        decreases words.len() - i,
    {
        if words[i] == *word {
            assert(words.deep_view()[i as int] == word@);
            return true;
        }
        i += 1;
    }
    false
}

/// Takes one more line into the word list.
fn add_line(words: &mut Vec<String>, line: &Vec<char>)
    ensures
        final(words).deep_view() == with_line(old(words).deep_view(), line@),
{
    if line.len() == 5 && alphabetic(line) {
        let word = uppercase(line);
        if !has_word(words, &word) {
            words.push(word);
            assert(words.deep_view() == old(words).deep_view().push(uppercased(line@)));
        }
    }
}

/// The word list that `content` gives: its lines of exactly five alphabetic
/// characters, in upper case, in the order of the text, each word once.
pub fn load_words(content: String) -> (words: Vec<String>)
    ensures
        words.deep_view() == catalog_of(content@),
        is_catalog(words.deep_view()),
{
    let chars = chars_of(content.as_str());
    let mut words: Vec<String> = Vec::new();
    let mut line: Vec<char> = Vec::new();
    let mut i: usize = 0;
    proof {
        assert(chars@.take(0) == Seq::<char>::empty());
        assert(split_lines(chars@.take(0)).drop_last() == Seq::<Seq<char>>::empty());
        assert(words.deep_view() == Seq::<Seq<char>>::empty());
    }
    while i < chars.len()
        invariant
            i <= chars.len(),
            line@ == split_lines(chars@.take(i as int)).last(),
            words.deep_view() == select_words(split_lines(chars@.take(i as int)).drop_last()),
        decreases chars.len() - i,
    {
        let ghost read = chars@.take(i as int);
        let ghost lines = split_lines(read);
        let c = chars[i];
        proof {
            lemma_split_lines(read);
            assert(chars@.take(i + 1).drop_last() == read);
        }
        if c == '\n' {
            add_line(&mut words, &line);
            line = Vec::new();
            assert(lines.push(Seq::<char>::empty()).drop_last() == lines);
            assert(lines.drop_last().push(lines.last()) == lines);
        } else {
            line.push(c);
            assert(lines.drop_last().push(lines.last().push(c)).drop_last() == lines.drop_last());
        }
        i += 1;
    }
    proof {
        let lines = split_lines(chars@);
        assert(chars@.take(i as int) == chars@);
        lemma_split_lines(chars@);
        assert(lines.drop_last().push(lines.last()) == lines);
        lemma_catalog_of(content@);
    }
    add_line(&mut words, &line);
    words
}

/// The word list that `content` gives, as `load_words` builds it, or
/// `EmptyCatalog` where no line of `content` is a word.
pub fn load_catalog(content: String) -> (r: Result<Vec<String>, CatalogError>)
    ensures
        r is Err <==> catalog_of(content@).len() == 0,
        match r {
            Ok(words) => words.deep_view() == catalog_of(content@) && is_catalog(
                words.deep_view(),
            ),
            Err(e) => e == CatalogError::EmptyCatalog,
        },
{
    let words = load_words(content);
    if words.len() == 0 {
        Err(CatalogError::EmptyCatalog)
    } else {
        Ok(words)
    }
}

/// `rand::seq::SliceRandom::choose` on the slice of `words`, with the
/// generator that `rand::thread_rng` hands out: `None` for an empty list,
/// else a reference to one of its elements. Which one is left open: it may
/// differ from call to call. No list makes the call panic, but the machine
/// can: the generator panics where the operating system gives it no seed
/// when it is first made or when it is due for a new one, and where its
/// handler for a forked process cannot be registered.
#[verifier::external_body]
pub(crate) fn random_word<'a>(words: &'a Vec<String>) -> (drawn: Option<&'a String>)
    ensures
        words@.len() == 0 ==> drawn is None,
        words@.len() > 0 ==> drawn is Some && words@.contains(*drawn->Some_0),
{
    words.choose(&mut thread_rng())
}

} // verus!
