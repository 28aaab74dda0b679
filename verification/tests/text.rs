use devconsole::text::{
    char_is_blank, char_is_control, concat2, decimal_text, join, split_words, text_has_control,
    trim,
};

#[test]
fn blanks_are_the_unicode_white_space() {
    for n in 0..=0x10ffffu32 {
        if let Some(c) = char::from_u32(n) {
            assert_eq!(char_is_blank(c), c.is_whitespace(), "{n:#x}");
        }
    }
}

#[test]
fn control_characters_are_the_unicode_category() {
    for n in 0..=0x10ffffu32 {
        if let Some(c) = char::from_u32(n) {
            assert_eq!(char_is_control(c), c.is_control(), "{n:#x}");
        }
    }
}

#[test]
fn control_is_found_anywhere() {
    assert!(!text_has_control(""));
    assert!(!text_has_control("plain — text"));
    assert!(text_has_control("\u{1b}"));
    assert!(text_has_control("a\tb"));
    assert!(text_has_control("tail\u{7f}"));
}

const LINES: [&str; 9] = [
    "",
    " ",
    "\t \u{3000}\n",
    "word",
    "  two words  ",
    "\u{2003}em\u{2003}space\u{2003}",
    "a  b\tc\nd",
    "é — ü ",
    " x",
];

#[test]
fn trim_takes_off_outer_blanks() {
    for line in LINES {
        assert_eq!(trim(line), line.trim());
    }
    assert_eq!(trim("  spawn 3 \n"), "spawn 3");
}

#[test]
fn words_are_split_at_blanks() {
    for line in LINES {
        let expected: Vec<&str> = line.split_whitespace().collect();
        assert_eq!(split_words(line), expected);
    }
    assert_eq!(split_words(" give  sword\t2 "), vec!["give", "sword", "2"]);
}

#[test]
fn trimming_changes_no_words() {
    for line in LINES {
        assert_eq!(split_words(trim(line)), split_words(line));
        assert_eq!(trim(line).is_empty(), split_words(line).is_empty());
        assert!(split_words(line).iter().all(|w| !w.is_empty()));
    }
}

#[test]
fn parts_are_joined() {
    assert_eq!(join(&vec![], ", "), "");
    assert_eq!(join(&vec!["a"], ", "), "a");
    assert_eq!(join(&vec!["a", "", "c"], ", "), "a, , c");
    assert_eq!(concat2("> ", "x"), "> x");
}

#[test]
fn numbers_in_decimal() {
    for n in [0, 7, 10, 99, 100, 1234567890, u64::MAX] {
        assert_eq!(decimal_text(n), n.to_string());
    }
}
