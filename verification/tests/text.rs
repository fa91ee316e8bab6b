use midi_start_program::text::{contains, is_white_space, second_word, starts_with, trim};

#[test]
fn white_space_is_that_of_unicode() {
    for c in '\u{0}'..=char::MAX {
        assert_eq!(is_white_space(c), c.is_whitespace(), "{:?}", c);
    }
}

#[test]
fn the_second_word_is_found() {
    for s in [
        "", " ", "a", " a ", "a b", "  a\t b  c", "Volume: 0.50", "\u{a0}x\u{3000}y\u{2028}",
        "Volume: 0.50 [MUTED]", "ä ö", "1.0\n",
    ] {
        assert_eq!(
            second_word(s),
            s.split_whitespace().nth(1).map(str::to_string),
            "{:?}",
            s
        );
    }
}

#[test]
fn white_space_is_trimmed_at_both_ends() {
    for s in ["", " ", "\n\t", "a", " a b ", "\u{a0}x\u{3000}", "ä\n"] {
        assert_eq!(trim(s), s.trim(), "{:?}", s);
    }
}

#[test]
fn a_part_is_found_wherever_it_stands() {
    for s in ["", "a", "ab", "aab", "No players found", "x: No players found\n", "ääö"] {
        for part in ["", "a", "ab", "b", "No players found", "äö"] {
            assert_eq!(contains(s, part), s.contains(part), "{:?} in {:?}", part, s);
            assert_eq!(starts_with(s, part), s.starts_with(part), "{:?} at {:?}", part, s);
        }
    }
}

#[test]
fn a_prefix_is_compared_whole() {
    assert!(starts_with("Digital Piano:Digital Piano MIDI 1 20:0", "Digital Piano"));
    assert!(!starts_with("Digital", "Digital Piano"));
    assert!(!starts_with("My Digital Piano", "Digital Piano"));
    assert!(starts_with("anything", ""));
}
