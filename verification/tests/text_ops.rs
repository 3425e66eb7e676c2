use rust_chat::text::{chars_of, has_line, lines, remove_char, split_on, trim, white_space};

#[test]
fn split_keeps_empty_fields() {
    assert_eq!(split_on("a||b", '|'), vec!["a", "", "b"]);
    assert_eq!(split_on("", '|'), vec![""]);
    assert_eq!(split_on("|", '|'), vec!["", ""]);
    assert_eq!(split_on("héllo|wörld", '|'), vec!["héllo", "wörld"]);
}

#[test]
fn remove_char_drops_every_one() {
    assert_eq!(remove_char("\na\nb\n", '\n'), "ab");
    assert_eq!(remove_char("abc", 'x'), "abc");
    assert_eq!(remove_char("", 'x'), "");
}

#[test]
fn trim_matches_std() {
    for s in ["", "  ", " a ", "\u{2028}b\u{205f}", "a b", "\u{1680}\u{180e}"] {
        assert_eq!(trim(s), s.trim());
    }
}

#[test]
fn white_space_matches_std() {
    for c in ['\t', '\n', '\r', ' ', '\u{85}', '\u{a0}', '\u{200b}', 'a', '|', '\u{3000}'] {
        assert_eq!(white_space(c), c.is_whitespace());
    }
}

#[test]
fn lines_match_std() {
    for s in ["", "a", "a\n", "a\n\nb\n", "a\r\nb", "a\r", "\n", "x\r\r\ny"] {
        let expected: Vec<String> = s.lines().map(|l| l.to_string()).collect();
        assert_eq!(lines(s), expected);
    }
}

#[test]
fn has_line_finds_whole_lines() {
    assert!(has_line("alice|1\r\nbob|2\n", "alice|1"));
    assert!(has_line("alice|1\r\nbob|2\n", "bob|2"));
    assert!(!has_line("alice|1\r\nbob|2\n", "bob"));
    assert!(!has_line("", ""));
    assert!(has_line("a\n\nb", ""));
}

#[test]
fn chars_of_lists_characters() {
    assert_eq!(chars_of("añb"), vec!['a', 'ñ', 'b']);
}
