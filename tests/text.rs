use wurdump::text::{chars_of, is_blank, is_white_space_char, string_of, trim_chars};

#[test]
fn trimming_removes_unicode_whitespace_at_both_ends() {
    let t = trim_chars("\u{a0}\t a b \u{2003}\n");
    assert_eq!(string_of(&t), "a b");
    assert!(trim_chars(" \n\t").is_empty());
    assert_eq!(string_of(&trim_chars("xyz")), "xyz");
}

#[test]
fn blank_means_whitespace_only() {
    assert!(is_blank(""));
    assert!(is_blank(" \r\n\u{85}"));
    assert!(!is_blank(" . "));
}

#[test]
fn whitespace_agrees_with_std() {
    for c in ['\u{0}', ' ', '\t', '\u{b}', '\u{1c}', '\u{85}', '\u{a0}', '\u{180e}', '\u{200b}', '\u{2028}', '\u{3000}', 'a', '\u{feff}'] {
        assert_eq!(is_white_space_char(c), c.is_whitespace(), "{:?}", c);
    }
}

#[test]
fn characters_round_trip() {
    let s = "héllo 世界";
    assert_eq!(chars_of(s), s.chars().collect::<Vec<char>>());
    assert_eq!(string_of(&chars_of(s)), s);
}
