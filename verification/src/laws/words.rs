//! What is read off a text.

use vstd::prelude::*;

use crate::error::ErrorView;
use crate::media;
use crate::text;
use crate::volume;

verus! {

/// Nothing but white space.
pub open spec fn all_white(s: Seq<char>) -> bool {
    forall|i: int| 0 <= i < s.len() ==> text::white_space(#[trigger] s[i])
}

/// No white space.
pub open spec fn no_white(s: Seq<char>) -> bool {
    forall|i: int| 0 <= i < s.len() ==> !text::white_space(#[trigger] s[i])
}

/// White space after a text does not change its words.
proof fn lemma_words_before_space(s: Seq<char>, c: char)
    requires
        text::white_space(c),
    ensures
        text::words(s.push(c)) == text::words(s),
    decreases s.len(),
{
    let t = s.push(c);
    if s.len() == 0 {
        assert(t.skip(1) =~= s);
    } else if text::white_space(s[0]) {
        lemma_words_before_space(s.skip(1), c);
        assert(t.skip(1) =~= s.skip(1).push(c));
    } else {
        text::lemma_word_len(s);
        let n = text::word_len(s) as int;
        assert forall|i: int| 0 <= i < n implies !text::white_space(#[trigger] t[i]) by {
            assert(t[i] == s[i]);
        }
        text::lemma_word_len_is(t, n);
        lemma_words_before_space(s.skip(n), c);
        assert(t.take(n) =~= s.take(n));
        assert(t.skip(n) =~= s.skip(n).push(c));
    }
}

proof fn lemma_words_of_trim_end(s: Seq<char>)
    ensures
        text::words(text::trim_end(s)) == text::words(s),
    decreases s.len(),
{
    if s.len() > 0 && text::white_space(s.last()) {
        lemma_words_of_trim_end(s.drop_last());
        lemma_words_before_space(s.drop_last(), s.last());
        assert(s.drop_last().push(s.last()) =~= s);
    }
}

proof fn lemma_words_of_trim_start(s: Seq<char>)
    ensures
        text::words(text::trim_start(s)) == text::words(s),
    decreases s.len(),
{
    if s.len() > 0 && text::white_space(s[0]) {
        lemma_words_of_trim_start(s.skip(1));
    }
}

/// The white space around a text does not change its words.
pub proof fn trimming_keeps_the_words(s: Seq<char>)
    ensures
        text::words(text::trimmed(s)) == text::words(s),
{
    lemma_words_of_trim_start(s);
    lemma_words_of_trim_end(text::trim_start(s));
}

/// A run of characters without white space, at the end of a text or before white space, is a
/// word, and the words after it are those of what follows.
pub proof fn a_run_without_space_is_a_word(before: Seq<char>, word: Seq<char>, after: Seq<char>)
    requires
        all_white(before),
        no_white(word),
        word.len() > 0,
        after.len() > 0 ==> text::white_space(after[0]),
    ensures
        text::words(before + word + after) == seq![word] + text::words(after),
{
    let s = before + word + after;
    let n = before.len() as int;
    let k = word.len() as int;
    assert forall|i: int| 0 <= i < n implies text::white_space(#[trigger] s[i]) by {
        assert(s[i] == before[i]);
    }
    text::lemma_words_of_space(s, n);
    let t = s.skip(n);
    assert(t =~= word + after);
    assert forall|i: int| 0 <= i < k implies !text::white_space(#[trigger] t[i]) by {
        assert(t[i] == word[i]);
    }
    assert(k < t.len() ==> t[k] == after[0]);
    text::lemma_word_len_is(t, k);
    assert(t[0] == word[0]);
    assert(t.take(k) =~= word);
    assert(t.skip(k) =~= after);
}

/// White space has no words.
pub proof fn space_has_no_words(s: Seq<char>)
    requires
        all_white(s),
    ensures
        text::words(s) == Seq::<Seq<char>>::empty(),
{
    text::lemma_words_of_space(s, s.len() as int);
    assert(s.skip(s.len() as int) =~= seq![]);
}

/// A text without the white space around it: what is left neither begins nor ends with any.
pub proof fn trimming_takes_the_space_around(before: Seq<char>, s: Seq<char>, after: Seq<char>)
    requires
        all_white(before),
        all_white(after),
        s.len() > 0 ==> !text::white_space(s[0]) && !text::white_space(s.last()),
    ensures
        text::trimmed(before + s + after) == s,
{
    let t = before + s + after;
    if s.len() > 0 {
        let n = before.len() as int;
        assert forall|i: int| 0 <= i < n implies text::white_space(#[trigger] t[i]) by {
            assert(t[i] == before[i]);
        }
        assert(t[n] == s[0]);
        text::lemma_trim_start(t, n);
        let u = t.skip(n);
        let k = s.len() as int;
        assert(u =~= s + after);
        assert forall|i: int| k <= i < u.len() implies text::white_space(#[trigger] u[i]) by {
            assert(u[i] == after[i - k]);
        }
        assert(u[k - 1] == s.last());
        text::lemma_trim_end(u, k);
        assert(u.take(k) =~= s);
    } else {
        assert forall|i: int| 0 <= i < t.len() implies text::white_space(#[trigger] t[i]) by {
            if i < before.len() {
                assert(t[i] == before[i]);
            } else {
                assert(t[i] == after[i - before.len()]);
            }
        }
        text::lemma_trim_start(t, t.len() as int);
        assert(t.skip(t.len() as int) =~= s);
    }
}

/// A text has two words at least: `first`, and then `second`.
pub open spec fn begins_with_two_words(
    s: Seq<char>,
    before: Seq<char>,
    first: Seq<char>,
    between: Seq<char>,
    second: Seq<char>,
    after: Seq<char>,
) -> bool {
    &&& s == before + first + between + second + after
    &&& all_white(before)
    &&& no_white(first)
    &&& first.len() > 0
    &&& all_white(between)
    &&& between.len() > 0
    &&& no_white(second)
    &&& second.len() > 0
    &&& after.len() > 0 ==> text::white_space(after[0])
}

proof fn lemma_two_words(
    s: Seq<char>,
    before: Seq<char>,
    first: Seq<char>,
    between: Seq<char>,
    second: Seq<char>,
    after: Seq<char>,
)
    requires
        begins_with_two_words(s, before, first, between, second, after),
    ensures
        text::words(s).len() > 1,
        text::words(s)[1] == second,
{
    let tail = between + second + after;
    assert(tail[0] == between[0]);
    assert(s =~= before + first + tail);
    a_run_without_space_is_a_word(before, first, tail);
    a_run_without_space_is_a_word(between, second, after);
}

/// Where a print has two words, the second one is the volume, whatever the words are and
/// whatever follows. It is also what a volume that is kept in that form is set to.
pub proof fn the_second_word_is_the_volume(
    s: Seq<char>,
    before: Seq<char>,
    first: Seq<char>,
    between: Seq<char>,
    second: Seq<char>,
    after: Seq<char>,
)
    requires
        begins_with_two_words(s, before, first, between, second, after),
    ensures
        volume::volume_in_text(s) == Ok::<Seq<char>, ErrorView>(second),
        volume::volume_argument(s) == second,
{
    lemma_two_words(s, before, first, between, second, after);
    trimming_keeps_the_words(s);
}

/// What `wpctl` prints is read: a label, a space, the volume and the end of the line.
pub proof fn a_printed_volume_is_read(label: Seq<char>, volume: Seq<char>)
    requires
        no_white(label),
        label.len() > 0,
        no_white(volume),
        volume.len() > 0,
    ensures
        volume::volume_in_text(label + seq![' '] + volume + seq!['\n']) == Ok::<
            Seq<char>,
            ErrorView,
        >(volume),
        volume::volume_argument(volume) == volume,
{
    let s = label + seq![' '] + volume + seq!['\n'];
    let none = Seq::<char>::empty();
    assert(s =~= none + label + seq![' '] + volume + seq!['\n']);
    the_second_word_is_the_volume(s, none, label, seq![' '], volume, seq!['\n']);
    a_run_without_space_is_a_word(none, volume, none);
    assert(none + volume + none =~= volume);
    space_has_no_words(none);
}

/// Where a print has one word or none, there is no volume in it, and the error tells of the
/// print without the white space around it. A volume that is kept in that form is set to just
/// what was kept.
pub proof fn one_word_is_no_volume(before: Seq<char>, word: Seq<char>, after: Seq<char>)
    requires
        all_white(before),
        no_white(word),
        all_white(after),
    ensures
        volume::volume_in_text(before + word + after) == Err::<Seq<char>, ErrorView>(
            ErrorView::ParsingVolume(word),
        ),
        volume::volume_argument(before + word + after) == before + word + after,
{
    let s = before + word + after;
    trimming_takes_the_space_around(before, word, after);
    if word.len() > 0 {
        a_run_without_space_is_a_word(before, word, after);
        space_has_no_words(after);
    } else {
        assert forall|i: int| 0 <= i < s.len() implies text::white_space(#[trigger] s[i]) by {
            if i < before.len() {
                assert(s[i] == before[i]);
            } else {
                assert(s[i] == after[i - before.len()]);
            }
        }
        space_has_no_words(s);
    }
    trimming_keeps_the_words(s);
}

/// Bytes that are UTF-8 are read as the text that they encode.
pub proof fn encoded_text_is_read_as_that_text(bytes: Seq<u8>)
    requires
        vstd::utf8::valid_utf8(bytes),
    ensures
        volume::volume_in(bytes) == volume::volume_in_text(vstd::utf8::decode_utf8(bytes)),
        media::media_paused(false, bytes) <==> text::occurs_in(
            "No players found"@,
            vstd::utf8::decode_utf8(bytes),
        ),
{
}

/// A part occurs in a text where the text is something, the part and something, and only there.
pub proof fn a_part_stands_between(part: Seq<char>, s: Seq<char>)
    ensures
        text::occurs_in(part, s) <==> exists|before: Seq<char>, after: Seq<char>|
            s == #[trigger] (before + part + after),
{
    if text::occurs_in(part, s) {
        let i = choose|i: int|
            0 <= i <= s.len() - part.len() && #[trigger] s.subrange(i, i + part.len()) == part;
        assert(s =~= s.take(i) + part + s.skip(i + part.len())) by {
            assert(s.subrange(i, i + part.len()) =~= part);
            assert forall|j: int| 0 <= j < s.len() implies s[j] == (s.take(i) + part + s.skip(
                i + part.len(),
            ))[j] by {
                if i <= j < i + part.len() {
                    assert(s.subrange(i, i + part.len())[j - i] == s[j]);
                }
            }
        }
    }
    if exists|before: Seq<char>, after: Seq<char>| s == #[trigger] (before + part + after) {
        let (before, after) = choose|before: Seq<char>, after: Seq<char>|
            s == #[trigger] (before + part + after);
        let i = before.len() as int;
        assert(s.subrange(i, i + part.len()) =~= part);
    }
}

/// Media count as paused where the command succeeded or said that there was nothing to pause,
/// somewhere in what it printed, and only there.
pub proof fn media_are_paused_where_the_command_says_so(success: bool, stderr: Seq<u8>)
    ensures
        success ==> media::media_paused(success, stderr),
        !success ==> (media::media_paused(success, stderr) <==> exists|
            before: Seq<char>,
            after: Seq<char>,
        |
            text::decoded(stderr) == #[trigger] (before + "No players found"@ + after)),
{
    a_part_stands_between("No players found"@, text::decoded(stderr));
}

/// A text begins with a prefix where it is the prefix and something, and only there.
pub proof fn a_prefix_comes_first(s: Seq<char>, prefix: Seq<char>)
    ensures
        text::begins_with(s, prefix) <==> exists|rest: Seq<char>| s == #[trigger] (prefix + rest),
{
    if text::begins_with(s, prefix) {
        assert(s =~= prefix + s.skip(prefix.len() as int)) by {
            assert(s.take(prefix.len() as int) =~= prefix);
            assert forall|i: int| 0 <= i < prefix.len() implies s[i] == prefix[i] by {
                assert(s.take(prefix.len() as int)[i] == s[i]);
            }
        }
    }
    if exists|rest: Seq<char>| s == #[trigger] (prefix + rest) {
        assert(s.take(prefix.len() as int) =~= prefix);
    }
}

/// What the user is told of an error is what kind it is and all that the failing part said.
pub proof fn an_error_is_told_in_full(e: ErrorView)
    ensures
        e.message() == (match e {
            ErrorView::IoError(t) => "somethingy io-y "@ + t,
            ErrorView::MidiParse(t) => "midi parsing error "@ + t,
            ErrorView::MidiInit(t) => "midi init error "@ + t,
            ErrorView::MidiInitPort(t) => "midi init error while getting port info "@ + t,
            ErrorView::MidiConnect(t) => "midi connection error while getting port info "@ + t,
            ErrorView::MidiOutputConnect(t) => "midi output connection error "@ + t,
            ErrorView::ExitStatusError { code: _, text } => "process exited unsucessfully "@ + text,
            ErrorView::KeepAwake(t) => "tried to keep computer awake "@ + t,
            ErrorView::ThreadError(t) => "thread error "@ + t,
            ErrorView::ParsingVolume(t) => "parsing volume "@ + t,
            ErrorView::MidiSend(t) => "midi send error "@ + t,
            ErrorView::NoMatchingMidiPort => "No matching MIDI port"@,
        }),
{
}

} // verus!
