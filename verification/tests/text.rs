use dver::text::{
    begins_with, chars_of, contains_char, first_word, is_whitespace, same_text, split_text,
    trimmed,
};

#[test]
fn white_space_is_what_std_calls_white_space() {
    let mut code: u32 = 0;
    while code <= 0x10FFFF {
        if let Some(c) = char::from_u32(code) {
            assert_eq!(is_whitespace(c), c.is_whitespace(), "U+{:04X}", code);
        }
        code += 1;
    }
}

#[test]
fn chars_of_keeps_every_character() {
    assert_eq!(chars_of(""), Vec::<char>::new());
    assert_eq!(chars_of("a\u{e9}\u{4e16}"), vec!['a', '\u{e9}', '\u{4e16}']);
}

#[test]
fn trimmed_drops_white_space_at_both_ends_only() {
    assert_eq!(trimmed("  8.0.406 \r\n"), "8.0.406");
    assert_eq!(trimmed("a b"), "a b");
    assert_eq!(trimmed("\u{a0}\u{3000}x\u{2003}"), "x");
    assert_eq!(trimmed(" \t "), "");
    assert_eq!(trimmed(""), "");
}

#[test]
fn trimmed_agrees_with_std() {
    for s in ["", " ", "x", " x", "x ", "  a  b  ", "\n\nab\t", "\u{85}q\u{1680}"] {
        assert_eq!(trimmed(s), s.trim());
    }
}

#[test]
fn first_word_is_the_first_token() {
    assert_eq!(first_word("8.0.406 [/usr/share/dotnet/sdk]"), "8.0.406");
    assert_eq!(first_word("   lead  rest"), "lead");
    assert_eq!(first_word("single"), "single");
    assert_eq!(first_word("   "), "");
    assert_eq!(first_word(""), "");
}

#[test]
fn first_word_agrees_with_std() {
    for s in ["", " ", "a", " a b", "\ta\nb", "x\u{2028}y", "  \u{e9}t\u{e9} z"] {
        assert_eq!(first_word(s), s.split_whitespace().next().unwrap_or(""));
    }
}

#[test]
fn split_text_gives_one_piece_more_than_separators() {
    assert_eq!(split_text("", ':'), vec![""]);
    assert_eq!(split_text("a", ':'), vec!["a"]);
    assert_eq!(split_text("a:b", ':'), vec!["a", "b"]);
    assert_eq!(split_text("a:", ':'), vec!["a", ""]);
    assert_eq!(split_text(":a::b", ':'), vec!["", "a", "", "b"]);
}

#[test]
fn split_text_agrees_with_std() {
    for s in ["", "\n", "a\nb\n", "\n\nx", "no newline", "\u{e9}\n\u{4e16}"] {
        let expected: Vec<String> = s.split('\n').map(|p| p.to_string()).collect();
        assert_eq!(split_text(s, '\n'), expected);
    }
}

#[test]
fn contains_char_finds_the_character() {
    assert!(contains_char("8.0", '.'));
    assert!(contains_char(".", '.'));
    assert!(!contains_char("8", '.'));
    assert!(!contains_char("", '.'));
}

#[test]
fn begins_with_compares_whole_prefix() {
    assert!(begins_with("8.0.406", "8."));
    assert!(begins_with("8.0.406", ""));
    assert!(begins_with("8.", "8."));
    assert!(!begins_with("8", "8."));
    assert!(!begins_with("18.0.0", "8."));
    assert!(!begins_with("", "8"));
}

#[test]
fn same_text_is_equality() {
    assert!(same_text("", ""));
    assert!(same_text("8.0.406", "8.0.406"));
    assert!(!same_text("8.0.406", "8.0.40"));
    assert!(!same_text("8.0.406", "8.0.407"));
    assert!(!same_text("a", "A"));
}
