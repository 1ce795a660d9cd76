//! Character-level helpers shared by the rest of the crate: alphabetic
//! characters, upper case, and trimming of white space.

use vstd::prelude::*;

verus! {

/// `String::push`: appends one character to the end of the string.
pub assume_specification[ String::push ](s: &mut String, ch: char)
    ensures
        final(s)@ == old(s)@.push(ch),
;

/// A character of the basic block, below U+0080.
pub open spec fn is_basic(c: char) -> bool {
    (c as u32) < 0x80
}

/// Whether every character of `s` is of the basic block.
pub open spec fn all_basic(s: Seq<char>) -> bool {
    forall|i: int| 0 <= i < s.len() ==> is_basic(#[trigger] s[i])
}

/// A letter of the basic Latin alphabet, of either case.
pub open spec fn is_letter(c: char) -> bool {
    ('a' <= c && c <= 'z') || ('A' <= c && c <= 'Z')
}

/// A capital letter of the basic Latin alphabet.
pub open spec fn is_capital(c: char) -> bool {
    'A' <= c && c <= 'Z'
}

/// The capital of a small letter of the basic Latin alphabet; any other
/// character unchanged.
pub open spec fn upper(c: char) -> char {
    if 'a' <= c && c <= 'z' {
        ((c as u8) - 32) as char
    } else {
        c
    }
}

/// Whether `c` has the Unicode property `White_Space`: one of its 25 code
/// points.
pub open spec fn is_whitespace(c: char) -> bool {
    let code = c as u32;
    ||| 0x09 <= code <= 0x0D
    ||| code == 0x20
    ||| code == 0x85
    ||| code == 0xA0
    ||| code == 0x1680
    ||| 0x2000 <= code <= 0x200A
    ||| code == 0x2028
    ||| code == 0x2029
    ||| code == 0x202F
    ||| code == 0x205F
    ||| code == 0x3000
}

/// `char::is_whitespace`: whether `c` has the Unicode property `White_Space`,
/// whose code points `is_whitespace` lists.
#[verifier::external_body]
fn has_white_space(c: char) -> (b: bool)
    ensures
        b == is_whitespace(c),
{
    c.is_whitespace()
}

/// What `char::is_alphabetic` returns for `c`: whether `c` has the Unicode
/// property `Alphabetic`.
pub uninterp spec fn unicode_alphabetic(c: char) -> bool;

/// Whether `c` is alphabetic: in the basic block the letters of the Latin
/// alphabet are, and nothing else; beyond it, what Unicode calls alphabetic.
pub open spec fn is_alphabetic(c: char) -> bool {
    if is_basic(c) {
        is_letter(c)
    } else {
        unicode_alphabetic(c)
    }
}

/// `char::is_alphabetic`: the result is the Unicode property `Alphabetic` of
/// `c`, which depends on `c` alone; below U+0080 the characters that have it
/// are the letters `A` to `Z` and `a` to `z`.
#[verifier::external_body]
fn has_alphabetic(c: char) -> (b: bool)
    ensures
        b == unicode_alphabetic(c),
        b == is_alphabetic(c),
{
    c.is_alphabetic()
}

/// What `str::to_uppercase` returns for the text `s`: its upper-case form by
/// the Unicode case mappings, which may be longer than `s`.
pub uninterp spec fn unicode_uppercase(s: Seq<char>) -> Seq<char>;

/// The upper-case form of `s`: a text of the basic block has each of its
/// small letters replaced by the capital and nothing else changed; any other
/// text has the form that Unicode gives it.
pub open spec fn uppercased(s: Seq<char>) -> Seq<char> {
    if all_basic(s) {
        Seq::new(s.len(), |i: int| upper(s[i]))
    } else {
        unicode_uppercase(s)
    }
}

/// `str::to_uppercase`: the result is the upper-case form of `s` by the
/// Unicode case mappings, which depends on `s` alone; where every character
/// of `s` is below U+0080, it is `s` with `a` to `z` replaced by `A` to `Z`.
#[verifier::external_body]
fn to_uppercase(s: &str) -> (u: String)
    ensures
        u@ == unicode_uppercase(s@),
        u@ == uppercased(s@),
{
    s.to_uppercase()
}

/// Whether every character of `s` is alphabetic.
pub open spec fn all_alphabetic(s: Seq<char>) -> bool {
    forall|i: int| 0 <= i < s.len() ==> is_alphabetic(#[trigger] s[i])
}

/// A text that stands for a word: exactly five characters, each of them
/// alphabetic, of either case.
pub open spec fn is_candidate(s: Seq<char>) -> bool {
    s.len() == 5 && all_alphabetic(s)
}

/// A word of the game: the upper-case form of five alphabetic characters.
pub open spec fn is_word(word: Seq<char>) -> bool {
    exists|s: Seq<char>| is_candidate(s) && #[trigger] uppercased(s) == word
}

/// Five letters of the basic Latin alphabet stand for the word made of their
/// five capitals.
pub proof fn lemma_basic_word(s: Seq<char>)
    requires
        is_candidate(s),
        all_basic(s),
    ensures
        is_word(uppercased(s)),
        uppercased(s).len() == 5,
        forall|i: int| 0 <= i < 5 ==> is_capital(#[trigger] uppercased(s)[i]),
{
    assert forall|i: int| 0 <= i < 5 implies is_capital(#[trigger] uppercased(s)[i]) by {
        assert(is_alphabetic(s[i]));
        assert(is_basic(s[i]));
    }
}

/// `s` without its leading white space.
pub open spec fn trim_start(s: Seq<char>) -> Seq<char>
    decreases s.len(),
{
    if s.len() > 0 && is_whitespace(s.first()) {
        trim_start(s.drop_first())
    } else {
        s
    }
}

/// `s` without its trailing white space.
pub open spec fn trim_end(s: Seq<char>) -> Seq<char>
    decreases s.len(),
{
    if s.len() > 0 && is_whitespace(s.last()) {
        trim_end(s.drop_last())
    } else {
        s
    }
}

/// `s` without its leading and trailing white space.
pub open spec fn trimmed(s: Seq<char>) -> Seq<char> {
    trim_end(trim_start(s))
}

/// What trimming keeps is one stretch of the text: all that it leaves out,
/// before and after, is white space, and what it keeps neither starts nor
/// ends with white space.
pub proof fn lemma_trimmed(s: Seq<char>) -> (kept: (int, int))
    ensures
        0 <= kept.0 <= kept.1 <= s.len(),
        trimmed(s) == s.subrange(kept.0, kept.1),
        forall|i: int| 0 <= i < kept.0 ==> is_whitespace(#[trigger] s[i]),
        forall|i: int| kept.1 <= i < s.len() ==> is_whitespace(#[trigger] s[i]),
        kept.0 < kept.1 ==> !is_whitespace(s[kept.0]) && !is_whitespace(s[kept.1 - 1]),
{
    let from = lemma_trim_start_found(s);
    let rest = s.skip(from);
    let len = lemma_trim_end_found(rest);
    assert(rest.take(len) == s.subrange(from, from + len));
    assert forall|i: int| from + len <= i < s.len() implies is_whitespace(#[trigger] s[i]) by {
        assert(rest[i - from] == s[i]);
    }
    if len > 0 {
        assert(rest[0] == s[from]);
        assert(rest[len - 1] == s[from + len - 1]);
    }
    (from, from + len)
}

/// Where the text starts once its leading white space is gone.
proof fn lemma_trim_start_found(s: Seq<char>) -> (k: int)
    ensures
        0 <= k <= s.len(),
        trim_start(s) == s.skip(k),
        forall|j: int| 0 <= j < k ==> is_whitespace(#[trigger] s[j]),
        k < s.len() ==> !is_whitespace(s[k]),
    decreases s.len(),
{
    if s.len() > 0 && is_whitespace(s.first()) {
        let rest = s.drop_first();
        let k = lemma_trim_start_found(rest);
        assert forall|j: int| 0 <= j < k + 1 implies is_whitespace(#[trigger] s[j]) by {
            if j > 0 {
                assert(rest[j - 1] == s[j]);
            }
        }
        if k < rest.len() {
            assert(rest[k] == s[k + 1]);
        }
        assert(rest.skip(k) == s.skip(k + 1));
        k + 1
    } else {
        assert(s.skip(0) == s);
        0
    }
}

/// Where the text ends once its trailing white space is gone.
proof fn lemma_trim_end_found(s: Seq<char>) -> (k: int)
    ensures
        0 <= k <= s.len(),
        trim_end(s) == s.take(k),
        forall|j: int| k <= j < s.len() ==> is_whitespace(#[trigger] s[j]),
        0 < k ==> !is_whitespace(s[k - 1]),
    decreases s.len(),
{
    if s.len() > 0 && is_whitespace(s.last()) {
        let rest = s.drop_last();
        let k = lemma_trim_end_found(rest);
        assert(rest.take(k) == s.take(k));
        assert forall|j: int| k <= j < s.len() implies is_whitespace(#[trigger] s[j]) by {
            if j < rest.len() {
                assert(rest[j] == s[j]);
            }
        }
        if k > 0 {
            assert(rest[k - 1] == s[k - 1]);
        }
        k
    } else {
        assert(s.take(s.len() as int) == s);
        s.len() as int
    }
}

/// Whether every character of `chars` is alphabetic.
pub fn alphabetic(chars: &Vec<char>) -> (b: bool)
    ensures
        b == all_alphabetic(chars@),
{
    let mut i: usize = 0;
    while i < chars.len()
        invariant
            i <= chars.len(),
            forall|j: int| 0 <= j < i ==> is_alphabetic(#[trigger] chars@[j]),
        decreases chars.len() - i,
    {
        if !has_alphabetic(chars[i]) {
            return false;
        }
        i += 1;
    }
    true
}

/// The upper-case form of `chars`.
pub fn uppercase(chars: &Vec<char>) -> (u: String)
    ensures
        u@ == uppercased(chars@),
{
    let text = string_of(chars);
    to_uppercase(text.as_str())
}

/// The characters of `s`, in order.
pub fn chars_of(s: &str) -> (chars: Vec<char>)
    ensures
        chars@ == s@,
{
    let mut chars: Vec<char> = Vec::new();
    for c in it: s.chars()
        invariant
            chars@ == it.seq().take(it.index() as int),
    {
        chars.push(c);
    }
    chars
}

/// The string made of `chars`, in order.
pub fn string_of(chars: &Vec<char>) -> (s: String)
    ensures
        s@ == chars@,
{
    let mut s = String::new();
    let mut i: usize = 0;
    while i < chars.len()
        invariant
            i <= chars.len(),
            s@ == chars@.take(i as int),
        decreases chars.len() - i,
    {
        s.push(chars[i]);
        i += 1;
    }
    s
}

/// The characters of `s` between its leading and its trailing white space.
pub fn trimmed_chars(s: &str) -> (kept: Vec<char>)
    ensures
        kept@ == trimmed(s@),
{
    let chars = chars_of(s);
    let mut start: usize = 0;
    while start < chars.len() && has_white_space(chars[start])
        invariant
            start <= chars.len(),
            forall|j: int| 0 <= j < start ==> is_whitespace(#[trigger] chars@[j]),
        decreases chars.len() - start,
    {
        start += 1;
    }
    let mut end: usize = chars.len();
    while end > start && has_white_space(chars[end - 1])
        invariant
            start <= end <= chars.len(),
            forall|j: int| end <= j < chars.len() ==> is_whitespace(#[trigger] chars@[j]),
        decreases end - start,
    {
        end -= 1;
    }
    let mut kept: Vec<char> = Vec::new();
    let mut i: usize = start;
    while i < end
        invariant
            start <= i <= end <= chars.len(),
            kept@ == chars@.subrange(start as int, i as int),
        decreases end - i,
    {
        kept.push(chars[i]);
        i += 1;
    }
    proof {
        let found = lemma_trimmed(chars@);
        if start < end {
            assert(found.0 == start && found.1 == end);
        } else {
            assert(found.0 == found.1);
        }
    }
    kept
}

/// `s` without its leading and trailing white space.
pub fn trim(s: &str) -> (t: String)
    ensures
        t@ == trimmed(s@),
{
    let kept = trimmed_chars(s);
    string_of(&kept)
}

} // verus!
