//! Searching and splitting text, character by character.

use vstd::prelude::*;

verus! {

/// The characters that Unicode lists under its `White_Space` property.
pub open spec fn white_space(c: char) -> bool {
    ||| '\u{9}' <= c <= '\u{d}'
    ||| c == '\u{20}'
    ||| c == '\u{85}'
    ||| c == '\u{a0}'
    ||| c == '\u{1680}'
    ||| '\u{2000}' <= c <= '\u{200a}'
    ||| c == '\u{2028}'
    ||| c == '\u{2029}'
    ||| c == '\u{202f}'
    ||| c == '\u{205f}'
    ||| c == '\u{3000}'
}

/// How many characters `s` has before its first white space.
pub open spec fn word_len(s: Seq<char>) -> nat
    decreases s.len(),
{
    if s.len() == 0 || white_space(s[0]) {
        0
    } else {
        1 + word_len(s.skip(1))
    }
}

/// The maximal runs of characters without white space, in order.
pub open spec fn words(s: Seq<char>) -> Seq<Seq<char>>
    decreases s.len(),
{
    if s.len() == 0 {
        seq![]
    } else if white_space(s[0]) {
        words(s.skip(1))
    } else {
        proof {
            lemma_word_len(s);
        }
        seq![s.take(word_len(s) as int)] + words(s.skip(word_len(s) as int))
    }
}

/// `s` without the white space at its start.
pub open spec fn trim_start(s: Seq<char>) -> Seq<char>
    decreases s.len(),
{
    if s.len() > 0 && white_space(s[0]) {
        trim_start(s.skip(1))
    } else {
        s
    }
}

/// `s` without the white space at its end.
pub open spec fn trim_end(s: Seq<char>) -> Seq<char>
    decreases s.len(),
{
    if s.len() > 0 && white_space(s.last()) {
        trim_end(s.drop_last())
    } else {
        s
    }
}

/// `s` without the white space at either end.
pub open spec fn trimmed(s: Seq<char>) -> Seq<char> {
    trim_end(trim_start(s))
}

/// `part` stands somewhere in `s`.
pub open spec fn occurs_in(part: Seq<char>, s: Seq<char>) -> bool {
    exists|i: int| 0 <= i <= s.len() - part.len() && #[trigger] s.subrange(i, i + part.len()) == part
}

/// `s` begins with `prefix`.
pub open spec fn begins_with(s: Seq<char>, prefix: Seq<char>) -> bool {
    prefix.len() <= s.len() && s.take(prefix.len() as int) == prefix
}

/// A leading word ends at white space or at the end of the text, and holds none.
pub proof fn lemma_word_len(s: Seq<char>)
    ensures
        word_len(s) <= s.len(),
        s.len() > 0 && !white_space(s[0]) ==> word_len(s) > 0,
        forall|i: int| 0 <= i < word_len(s) ==> !white_space(#[trigger] s[i]),
        word_len(s) < s.len() ==> white_space(s[word_len(s) as int]),
    decreases s.len(),
{
    if s.len() > 0 && !white_space(s[0]) {
        lemma_word_len(s.skip(1));
        assert forall|i: int| 0 <= i < word_len(s) implies !white_space(#[trigger] s[i]) by {
            if i > 0 {
                assert(s[i] == s.skip(1)[i - 1]);
            }
        }
    }
}

pub(crate) proof fn lemma_words_of_space(s: Seq<char>, n: int)
    requires
        0 <= n <= s.len(),
        forall|i: int| 0 <= i < n ==> white_space(#[trigger] s[i]),
    ensures
        words(s) == words(s.skip(n)),
    decreases n,
{
    if n == 0 {
        assert(s.skip(0) =~= s);
    } else {
        let t = s.skip(1);
        assert forall|i: int| 0 <= i < n - 1 implies white_space(#[trigger] t[i]) by {
            assert(t[i] == s[i + 1]);
        }
        lemma_words_of_space(t, n - 1);
        assert(t.skip(n - 1) =~= s.skip(n));
        assert(white_space(s[0]));
    }
}

pub(crate) proof fn lemma_word_len_is(s: Seq<char>, n: int)
    requires
        0 <= n <= s.len(),
        forall|i: int| 0 <= i < n ==> !white_space(#[trigger] s[i]),
        n < s.len() ==> white_space(s[n]),
    ensures
        word_len(s) == n,
{
    lemma_word_len(s);
}

/// A word holds no white space, so it is its own only word.
pub proof fn lemma_word_is_one_word(s: Seq<char>, i: int)
    requires
        0 <= i < words(s).len(),
    ensures
        words(words(s)[i]) == seq![words(s)[i]],
    decreases s.len(),
{
    lemma_word_len(s);
    if white_space(s[0]) {
        lemma_word_is_one_word(s.skip(1), i);
    } else {
        let n = word_len(s) as int;
        let word = s.take(n);
        let tail = s.skip(n);
        assert(words(s) == seq![word] + words(tail));
        if i == 0 {
            lemma_word_len_is(word, n);
            assert(word.take(n) =~= word);
            assert(words(word.skip(n)) =~= seq![]);
            assert(words(word) =~= seq![word]);
        } else {
            lemma_word_is_one_word(tail, i - 1);
            assert(words(s)[i] == words(tail)[i - 1]);
        }
    }
}

pub(crate) proof fn lemma_trim_start(s: Seq<char>, n: int)
    requires
        0 <= n <= s.len(),
        forall|i: int| 0 <= i < n ==> white_space(#[trigger] s[i]),
        n < s.len() ==> !white_space(s[n]),
    ensures
        trim_start(s) == s.skip(n),
    decreases n,
{
    if n == 0 {
        assert(s.skip(0) =~= s);
    } else {
        let t = s.skip(1);
        assert forall|i: int| 0 <= i < n - 1 implies white_space(#[trigger] t[i]) by {
            assert(t[i] == s[i + 1]);
        }
        lemma_trim_start(t, n - 1);
        assert(t.skip(n - 1) =~= s.skip(n));
        assert(white_space(s[0]));
    }
}

pub(crate) proof fn lemma_trim_end(s: Seq<char>, n: int)
    requires
        0 <= n <= s.len(),
        forall|i: int| n <= i < s.len() ==> white_space(#[trigger] s[i]),
        n > 0 ==> !white_space(s[n - 1]),
    ensures
        trim_end(s) == s.take(n),
    decreases s.len(),
{
    if n == s.len() {
        assert(s.take(n) =~= s);
    } else {
        let t = s.drop_last();
        assert(white_space(s[s.len() - 1]));
        lemma_trim_end(t, n);
        assert(t.take(n) =~= s.take(n));
    }
}

/// The text that bytes stand for which are not UTF-8, with replacements for what is none.
pub uninterp spec fn utf8_lossy(bytes: Seq<u8>) -> Seq<char>;

/// The text that bytes stand for: what they encode where they are UTF-8.
pub open spec fn decoded(bytes: Seq<u8>) -> Seq<char> {
    if vstd::utf8::valid_utf8(bytes) {
        vstd::utf8::decode_utf8(bytes)
    } else {
        utf8_lossy(bytes)
    }
}

/// `String::from_utf8_lossy`. Where the bytes are UTF-8, the text is what they encode, and
/// else it is a function of the bytes.
#[verifier::external_body]
pub(crate) fn from_utf8_lossy(bytes: &[u8]) -> (text: String)
    ensures
        vstd::utf8::valid_utf8(bytes@) ==> text@ == vstd::utf8::decode_utf8(bytes@),
        !vstd::utf8::valid_utf8(bytes@) ==> text@ == utf8_lossy(bytes@),
{
    String::from_utf8_lossy(bytes).into_owned()
}

/// Says whether `c` is white space.
pub fn is_white_space(c: char) -> (answer: bool)
    ensures
        answer == white_space(c),
{
    ('\u{9}' <= c && c <= '\u{d}') || c == '\u{20}' || c == '\u{85}' || c == '\u{a0}' || c
        == '\u{1680}' || ('\u{2000}' <= c && c <= '\u{200a}') || c == '\u{2028}' || c == '\u{2029}'
        || c == '\u{202f}' || c == '\u{205f}' || c == '\u{3000}'
}

/// The characters of `s`, to be reached by index.
fn chars_of(s: &str) -> (chars: Vec<char>)
    ensures
        chars@ == s@,
{
    let mut chars: Vec<char> = Vec::new();
    for c in iter: s.chars()
        invariant
            chars@ == iter.seq().take(iter.index() as int),
            iter.seq() == s@,
    {
        chars.push(c);
        assert(iter.seq().take(iter.index() + 1) =~= iter.seq().take(iter.index() as int).push(c));
    }
    assert(s@.take(s@.len() as int) =~= s@);
    chars
}

/// The first index from `from` on at which `chars` has no white space, or its length.
fn skip_white_space(chars: &Vec<char>, from: usize) -> (to: usize)
    requires
        from <= chars@.len(),
    ensures
        from <= to <= chars@.len(),
        forall|i: int| from <= i < to ==> white_space(#[trigger] chars@[i]),
        to < chars@.len() ==> !white_space(chars@[to as int]),
{
    let mut to: usize = from;
    while to < chars.len() && is_white_space(chars[to])
        invariant
            from <= to <= chars@.len(),
            forall|i: int| from <= i < to ==> white_space(#[trigger] chars@[i]),
        decreases chars@.len() - to,
    {
        to = to + 1;
    }
    to
}

/// The first index from `from` on at which `chars` has white space, or its length.
fn skip_word(chars: &Vec<char>, from: usize) -> (to: usize)
    requires
        from <= chars@.len(),
    ensures
        from <= to <= chars@.len(),
        forall|i: int| from <= i < to ==> !white_space(#[trigger] chars@[i]),
        to < chars@.len() ==> white_space(chars@[to as int]),
{
    let mut to: usize = from;
    while to < chars.len() && !is_white_space(chars[to])
        invariant
            from <= to <= chars@.len(),
            forall|i: int| from <= i < to ==> !white_space(#[trigger] chars@[i]),
        decreases chars@.len() - to,
    {
        to = to + 1;
    }
    to
}

/// The second word of `s`, if it has two.
pub fn second_word(s: &str) -> (word: Option<String>)
    ensures
        match word {
            Some(w) => words(s@).len() > 1 && w@ == words(s@)[1],
            None => words(s@).len() <= 1,
        },
{
    let chars: Vec<char> = chars_of(s);
    let a: usize = skip_white_space(&chars, 0);
    let b: usize = skip_word(&chars, a);
    let c: usize = skip_white_space(&chars, b);
    let d: usize = skip_word(&chars, c);
    proof {
        let rest = s@.skip(a as int);
        lemma_words_of_space(s@, a as int);
        if a < s@.len() {
            lemma_word_len_is(rest, b - a);
            let tail = rest.skip(b - a);
            lemma_words_of_space(tail, c - b);
            let last = tail.skip(c - b);
            assert(rest[0] == s@[a as int]);
            assert(words(rest) == seq![rest.take(b - a)] + words(tail));
            if c < s@.len() {
                assert(last[0] == s@[c as int]);
                lemma_word_len_is(last, d - c);
                assert(last.take(d - c) =~= s@.subrange(c as int, d as int));
                assert(words(last) == seq![last.take(d - c)] + words(last.skip(d - c)));
            }
        }
    }
    if c < chars.len() {
        Some(s.substring_char(c, d).to_string())
    } else {
        None
    }
}

/// `s` without the white space at either end.
pub fn trim(s: &str) -> (inner: String)
    ensures
        inner@ == trimmed(s@),
{
    let chars: Vec<char> = chars_of(s);
    let a: usize = skip_white_space(&chars, 0);
    let mut b: usize = chars.len();
    while a < b && is_white_space(chars[b - 1])
        invariant
            a <= b <= chars@.len(),
            forall|i: int| b <= i < chars@.len() ==> white_space(#[trigger] chars@[i]),
        decreases b,
    {
        b = b - 1;
    }
    proof {
        let rest = s@.skip(a as int);
        lemma_trim_start(s@, a as int);
        assert forall|i: int| b - a <= i < rest.len() implies white_space(#[trigger] rest[i]) by {
            assert(rest[i] == chars@[i + a]);
        }
        lemma_trim_end(rest, b - a);
        assert(rest.take(b - a) =~= s@.subrange(a as int, b as int));
    }
    s.substring_char(a, b).to_string()
}

/// Says whether `chars` has `part` at the index `at`.
fn stands_at(chars: &Vec<char>, part: &Vec<char>, at: usize) -> (answer: bool)
    requires
        at + part@.len() <= chars@.len(),
    ensures
        answer == (chars@.subrange(at as int, at + part@.len()) == part@),
{
    let size: usize = chars.len();
    let mut i: usize = 0;
    while i < part.len()
        invariant
            i <= part@.len(),
            size == chars@.len(),
            at + part@.len() <= size,
            forall|j: int| 0 <= j < i ==> chars@[at + j] == #[trigger] part@[j],
        decreases part@.len() - i,
    {
        if chars[at + i] != part[i] {
            assert(chars@.subrange(at as int, at + part@.len())[i as int] == chars@[at + i]);
            return false;
        }
        i = i + 1;
    }
    assert(chars@.subrange(at as int, at + part@.len()) =~= part@);
    true
}

/// Says whether `part` stands somewhere in `s`.
pub fn contains(s: &str, part: &str) -> (answer: bool)
    ensures
        answer == occurs_in(part@, s@),
{
    let chars: Vec<char> = chars_of(s);
    let wanted: Vec<char> = chars_of(part);
    if wanted.len() > chars.len() {
        return false;
    }
    let last: usize = chars.len() - wanted.len();
    let mut at: usize = 0;
    while at <= last
        invariant
            chars@ == s@,
            wanted@ == part@,
            last == chars@.len() - wanted@.len(),
            at <= last + 1,
            forall|i: int|
                0 <= i < at ==> #[trigger] chars@.subrange(i, i + wanted@.len()) != wanted@,
        decreases last + 1 - at,
    {
        if stands_at(&chars, &wanted, at) {
            return true;
        }
        if at == last {
            return false;
        }
        at = at + 1;
    }
    false
}

/// Says whether `s` begins with `prefix`.
pub fn starts_with(s: &str, prefix: &str) -> (answer: bool)
    ensures
        answer == begins_with(s@, prefix@),
{
    let chars: Vec<char> = chars_of(s);
    let wanted: Vec<char> = chars_of(prefix);
    proof {
        if prefix@.len() <= s@.len() {
            assert(s@.subrange(0, prefix@.len() as int) =~= s@.take(prefix@.len() as int));
        }
    }
    wanted.len() <= chars.len() && stands_at(&chars, &wanted, 0)
}

} // verus!
