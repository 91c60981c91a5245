use now_playing::text::{char_is_space, contains, contains_chars, lines, point_for_comma};
use now_playing::text::{same_text, split_whitespace, to_chars, trim};

#[test]
fn white_space_is_the_unicode_property() {
    for c in [' ', '\t', '\n', '\r', '\u{b}', '\u{c}', '\u{85}', '\u{a0}', '\u{1680}'] {
        assert!(char_is_space(c));
    }
    for c in ['\u{2000}', '\u{200a}', '\u{2028}', '\u{2029}', '\u{202f}', '\u{205f}', '\u{3000}'] {
        assert!(char_is_space(c));
    }
    for c in ['a', '0', '\u{8}', '\u{e}', '\u{200b}', '\u{180e}', '\u{feff}', '_'] {
        assert!(!char_is_space(c));
    }
}

#[test]
fn white_space_agrees_with_std_on_every_char() {
    let mut code = 0u32;
    while code <= 0x10ffff {
        if let Some(c) = char::from_u32(code) {
            assert_eq!(char_is_space(c), c.is_whitespace());
        }
        code += 1;
    }
}

#[test]
fn to_chars_keeps_every_char() {
    assert_eq!(to_chars("a\u{f6}\u{1f3b5}"), vec!['a', '\u{f6}', '\u{1f3b5}']);
    assert!(to_chars("").is_empty());
}

#[test]
fn trim_removes_white_space_at_both_ends() {
    assert_eq!(trim("  Playing \n"), "Playing");
    assert_eq!(trim("a b"), "a b");
    assert_eq!(trim("\u{a0}x\u{3000}"), "x");
    assert_eq!(trim(" \t\r\n"), "");
    assert_eq!(trim(""), "");
    assert_eq!(trim(" \u{f6} "), "\u{f6}");
}

#[test]
fn lines_follow_the_line_feeds() {
    assert_eq!(lines("a\nb\nc"), vec!["a", "b", "c"]);
    assert_eq!(lines("a\nb\n"), vec!["a", "b"]);
    assert_eq!(lines("a\n\nb"), vec!["a", "", "b"]);
    assert_eq!(lines("\n"), vec![""]);
    assert_eq!(lines("\n\n"), vec!["", ""]);
    assert_eq!(lines("abc"), vec!["abc"]);
    assert!(lines("").is_empty());
}

#[test]
fn lines_take_a_carriage_return_before_a_line_feed_as_ending() {
    assert_eq!(lines("a\r\nb\r\n"), vec!["a", "b"]);
    assert_eq!(lines("a\r"), vec!["a\r"]);
    assert_eq!(lines("a\rb\n"), vec!["a\rb"]);
    assert_eq!(lines("a\r\r\n"), vec!["a\r"]);
    assert_eq!(lines("\r\n"), vec![""]);
}

#[test]
fn lines_agree_with_std() {
    for text in ["", "a", "a\n", "\na", "a\r\nb", "a\n\r\nb\r", "\r", "x\u{f6}\ny\n\n"] {
        let expected: Vec<String> = text.lines().map(|l| l.to_string()).collect();
        assert_eq!(lines(text), expected);
    }
}

#[test]
fn split_whitespace_gives_the_words() {
    assert_eq!(split_whitespace("playerctl -p spotify status"), vec![
        "playerctl", "-p", "spotify", "status"
    ]);
    assert_eq!(split_whitespace("  a \t b\n"), vec!["a", "b"]);
    assert_eq!(split_whitespace("one"), vec!["one"]);
    assert!(split_whitespace("").is_empty());
    assert!(split_whitespace(" \n\t").is_empty());
    assert_eq!(split_whitespace("a\u{a0}b"), vec!["a", "b"]);
}

#[test]
fn split_whitespace_agrees_with_std() {
    for text in ["", " ", "a", " a", "a ", "a  b", "\ta\nb\r\nc ", "x\u{3000}y z"] {
        let expected: Vec<String> = text.split_whitespace().map(|w| w.to_string()).collect();
        assert_eq!(split_whitespace(text), expected);
    }
}

#[test]
fn contains_finds_a_run_anywhere() {
    assert!(contains("Usage: x", "Usage:"));
    assert!(contains("x Usage:", "Usage:"));
    assert!(contains("xUsage:x", "Usage:"));
    assert!(contains("UsUsage:", "Usage:"));
    assert!(contains("abc", ""));
    assert!(contains("", ""));
    assert!(contains("abc", "abc"));
    assert!(!contains("", "a"));
    assert!(!contains("ab", "abc"));
    assert!(!contains("Usage", "Usage:"));
    assert!(!contains("U s a g e :", "Usage:"));
}

#[test]
fn contains_chars_works_on_char_vectors() {
    assert!(contains_chars(&to_chars("hello"), &to_chars("ll")));
    assert!(!contains_chars(&to_chars("hello"), &to_chars("lll")));
}

#[test]
fn same_text_compares_characters() {
    assert!(same_text("true", "true"));
    assert!(same_text("", ""));
    assert!(!same_text("true", "True"));
    assert!(!same_text("true", "true "));
}

#[test]
fn point_for_comma_replaces_every_comma() {
    assert_eq!(point_for_comma("12,5"), "12.5");
    assert_eq!(point_for_comma("1,2,3"), "1.2.3");
    assert_eq!(point_for_comma(",,"), "..");
    assert_eq!(point_for_comma("12.5"), "12.5");
    assert_eq!(point_for_comma(""), "");
    assert_eq!(point_for_comma("\u{f6},\u{f6}"), "\u{f6}.\u{f6}");
}

#[test]
fn splitting_gives_back_the_words_that_were_joined() {
    let words = vec!["playerctl", "-p", "spotify", "status"];
    assert_eq!(split_whitespace(&words.join(" ")), words);
    let one = vec!["one"];
    assert_eq!(split_whitespace(&one.join(" ")), one);
}
