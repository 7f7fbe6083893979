use pkg_sweep::text::{char_is_whitespace, chars_of, push_text, same_text, trimmed_bounds};

#[test]
fn white_space_is_what_std_calls_white_space() {
    for code in 0..=0x10ffffu32 {
        if let Some(c) = char::from_u32(code) {
            assert_eq!(char_is_whitespace(c), c.is_whitespace(), "U+{:04X}", code);
        }
    }
}

#[test]
fn the_white_space_characters() {
    for c in [' ', '\t', '\n', '\r', '\u{b}', '\u{c}', '\u{85}', '\u{a0}', '\u{1680}', '\u{2000}', '\u{200a}',
        '\u{2028}', '\u{2029}', '\u{202f}', '\u{205f}', '\u{3000}']
    {
        assert!(char_is_whitespace(c));
    }
    for c in ['a', '0', '-', '\u{8}', '\u{e}', '\u{1f}', '\u{200b}', '\u{feff}', '\u{180e}'] {
        assert!(!char_is_whitespace(c));
    }
}

#[test]
fn chars_come_out_one_by_one() {
    assert_eq!(chars_of("a\u{e9}\u{1f5d1}b"), vec!['a', '\u{e9}', '\u{1f5d1}', 'b']);
    assert!(chars_of("").is_empty());
}

#[test]
fn bounds_cut_white_space_at_both_ends() {
    let chars = chars_of("xx  foo bar \t yy");
    assert_eq!(trimmed_bounds(&chars, 2, 14), (4, 11));
    assert_eq!(trimmed_bounds(&chars, 4, 11), (4, 11));
    assert_eq!(trimmed_bounds(&chars, 0, 16), (0, 16));
    assert_eq!(trimmed_bounds(&chars, 2, 4), (4, 4));
    assert_eq!(trimmed_bounds(&chars, 7, 8), (8, 8));
    assert_eq!(trimmed_bounds(&chars, 5, 5), (5, 5));
}

#[test]
fn texts_are_compared_by_their_characters() {
    assert!(same_text("apt", "apt"));
    assert!(same_text("", ""));
    assert!(!same_text("apt", "apt "));
    assert!(!same_text("apt", "Apt"));
}

#[test]
fn a_text_is_appended_as_a_copy() {
    let mut list = vec!["a".to_string()];
    push_text(&mut list, "b");
    push_text(&mut list, "");
    assert_eq!(list, vec!["a".to_string(), "b".to_string(), String::new()]);
}
