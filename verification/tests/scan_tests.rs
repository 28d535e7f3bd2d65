use mysql2sqlite::scan;

fn chars(s: &str) -> Vec<char> {
    s.chars().collect()
}

fn text(v: &Vec<char>) -> String {
    v.iter().collect()
}

fn split(s: &str) -> Vec<String> {
    scan::split_lines(&chars(s)).iter().map(text).collect()
}

fn join(items: &[&str]) -> String {
    let lines: Vec<Vec<char>> = items.iter().map(|s| chars(s)).collect();
    text(&scan::join_lines(&lines))
}

#[test]
fn strings_and_characters_convert_both_ways() {
    for s in ["", "a", "héllo 日本語", "line\nline\r\n", "\u{0}"] {
        assert_eq!(scan::chars_of(s), chars(s));
        assert_eq!(scan::string_of(&chars(s)), s);
        assert_eq!(scan::string_of(&scan::chars_of(s)), s);
    }
}

#[test]
fn whitespace_is_what_trimming_removes() {
    for c in [' ', '\t', '\n', '\u{b}', '\u{c}', '\r', '\u{85}', '\u{a0}', '\u{1680}', '\u{2000}', '\u{200a}', '\u{2028}', '\u{2029}', '\u{202f}', '\u{205f}', '\u{3000}'] {
        assert!(scan::is_whitespace(c), "{:?}", c);
        assert!(c.is_whitespace());
    }
    for c in ['a', '0', '\u{0}', '\u{8}', '\u{e}', '\u{1f}', '!', '\u{84}', '\u{86}', '\u{200b}', '\u{180e}', '\u{feff}', '\u{2060}'] {
        assert!(!scan::is_whitespace(c), "{:?}", c);
        assert!(!c.is_whitespace());
    }
}

#[test]
fn whitespace_agrees_with_the_standard_library_everywhere() {
    let mut n: u32 = 0;
    while n <= 0x10FFFF {
        if let Some(c) = char::from_u32(n) {
            assert_eq!(scan::is_whitespace(c), c.is_whitespace(), "{:x}", n);
        }
        n += 1;
    }
}

#[test]
fn case_is_folded_in_ascii_only() {
    assert_eq!(text(&scan::upper(&chars("aZ{`@[é ß az"))), "AZ{`@[é ß AZ");
    assert_eq!(text(&scan::lower(&chars("aZ{`@[É AZ"))), "az{`@[É az");
    let mut n: u32 = 0;
    while n < 128 {
        let c = char::from_u32(n).unwrap();
        assert_eq!(scan::upper_char(c), c.to_ascii_uppercase());
        assert_eq!(scan::lower_char(c), c.to_ascii_lowercase());
        n += 1;
    }
    assert_eq!(scan::upper_char('ß'), 'ß');
    assert_eq!(scan::upper_char('\u{17f}'), '\u{17f}');
    assert_eq!(scan::lower_char('\u{212a}'), '\u{212a}');
}

#[test]
fn a_pattern_is_found_at_its_first_position() {
    assert_eq!(scan::find(&chars("abcabc"), &chars("bc")), Some(1));
    assert_eq!(scan::find(&chars("abcabc"), &chars("abc")), Some(0));
    assert_eq!(scan::find(&chars("abcabd"), &chars("abd")), Some(3));
    assert_eq!(scan::find(&chars("aaab"), &chars("aab")), Some(1));
    assert_eq!(scan::find(&chars("abc"), &chars("")), Some(0));
    assert_eq!(scan::find(&chars(""), &chars("")), Some(0));
    assert_eq!(scan::find(&chars("ab"), &chars("abc")), None);
    assert_eq!(scan::find(&chars(""), &chars("a")), None);
    assert_eq!(scan::find(&chars("abc"), &chars("d")), None);
    assert_eq!(scan::find(&chars("日本語"), &chars("語")), Some(2));
}

#[test]
fn containing_is_finding() {
    assert!(scan::contains(&chars("abc"), &chars("bc")));
    assert!(scan::contains(&chars("abc"), &chars("")));
    assert!(!scan::contains(&chars("abc"), &chars("cb")));
    assert!(!scan::contains(&chars("abc"), &chars("abcd")));
}

#[test]
fn a_pattern_stands_at_a_position_or_not() {
    assert!(scan::occurs_at(&chars("abc"), &chars("bc"), 1));
    assert!(!scan::occurs_at(&chars("abc"), &chars("bc"), 0));
    assert!(!scan::occurs_at(&chars("abc"), &chars("bc"), 2));
    assert!(!scan::occurs_at(&chars("abc"), &chars("bc"), 3));
    assert!(!scan::occurs_at(&chars("abc"), &chars("bc"), usize::MAX));
    assert!(scan::occurs_at(&chars("abc"), &chars(""), 3));
    assert!(!scan::occurs_at(&chars("abc"), &chars(""), 4));
}

#[test]
fn beginnings_and_ends_are_compared() {
    assert!(scan::starts_with(&chars("abc"), &chars("ab")));
    assert!(scan::starts_with(&chars("abc"), &chars("")));
    assert!(scan::starts_with(&chars("abc"), &chars("abc")));
    assert!(!scan::starts_with(&chars("abc"), &chars("abcd")));
    assert!(!scan::starts_with(&chars("abc"), &chars("bc")));
    assert!(scan::ends_with(&chars("abc"), &chars("bc")));
    assert!(scan::ends_with(&chars("abc"), &chars("")));
    assert!(!scan::ends_with(&chars("abc"), &chars("ab")));
    assert!(!scan::ends_with(&chars("bc"), &chars("abc")));
    assert!(scan::ends_with_char(&chars("abc"), 'c'));
    assert!(!scan::ends_with_char(&chars("abc"), 'b'));
    assert!(!scan::ends_with_char(&chars(""), 'b'));
}

#[test]
fn patterns_can_be_given_as_string_slices() {
    assert!(scan::starts_with_str(&chars("SET x"), "SET "));
    assert!(!scan::starts_with_str(&chars("SETx"), "SET "));
    assert!(scan::starts_with_str(&chars(""), ""));
    assert!(!scan::starts_with_str(&chars(""), "a"));
    assert!(scan::contains_str(&chars("a KEY b"), "KEY"));
    assert!(!scan::contains_str(&chars("a key b"), "KEY"));
    assert!(scan::contains_str(&chars(""), ""));
}

#[test]
fn the_last_position_of_a_character_is_found() {
    assert_eq!(scan::rfind_char(&chars("a)b)c"), ')'), Some(3));
    assert_eq!(scan::rfind_char(&chars(")"), ')'), Some(0));
    assert_eq!(scan::rfind_char(&chars("abc"), ')'), None);
    assert_eq!(scan::rfind_char(&chars(""), ')'), None);
}

#[test]
fn characters_are_counted() {
    assert_eq!(scan::count_char(&chars("it's"), '\''), 1);
    assert_eq!(scan::count_char(&chars("'a', 'b'"), '\''), 4);
    assert_eq!(scan::count_char(&chars(""), '\''), 0);
    assert_eq!(scan::count_char(&chars("abc"), '\''), 0);
}

#[test]
fn trimming_agrees_with_the_standard_library() {
    for s in ["", " ", "a", "  a  ", "\t\na b\r\n", "\u{3000} a \u{a0}", "\u{200b} a", "a\u{200b} ", " \u{feff}"] {
        assert_eq!(text(&scan::trim_start(&chars(s))), s.trim_start());
        assert_eq!(text(&scan::trim_end(&chars(s))), s.trim_end());
        assert_eq!(text(&scan::trim(&chars(s))), s.trim());
        assert_eq!(scan::leading_whitespace(&chars(s)), s.chars().count() - s.trim_start().chars().count());
        assert_eq!(scan::trailing_whitespace(&chars(s)), s.chars().count() - s.trim_end().chars().count());
    }
}

#[test]
fn a_run_at_the_end_is_stripped() {
    assert_eq!(text(&scan::trim_end_matches(&chars("a,,"), ',')), "a");
    assert_eq!(text(&scan::trim_end_matches(&chars("a, ,"), ',')), "a, ");
    assert_eq!(text(&scan::trim_end_matches(&chars(",,"), ',')), "");
    assert_eq!(text(&scan::trim_end_matches(&chars("a"), ',')), "a");
    assert_eq!(text(&scan::trim_end_matches(&chars(""), ',')), "");
}

#[test]
fn replacing_scans_from_the_left() {
    for (s, from, to) in [
        ("aaa", "aa", "b"),
        ("abcabc", "bc", ""),
        ("abcabc", "abc", "abcabc"),
        ("a,\n),\n);", ",\n)", "\n)"),
        ("abc", "d", "e"),
        ("", "a", "b"),
        ("aaaa", "a", "aa"),
        ("xUNSIGNEDy", "UNSIGNED", ""),
        ("ab", "abc", "x"),
    ] {
        assert_eq!(
            text(&scan::replace_all(&chars(s), &chars(from), &chars(to))),
            s.replace(from, to),
            "{:?} {:?} {:?}",
            s,
            from,
            to
        );
    }
    assert_eq!(text(&scan::replace_all(&chars("aaa"), &chars("aa"), &chars("b"))), "ba");
}

#[test]
fn an_empty_pattern_replaces_nothing() {
    assert_eq!(text(&scan::replace_all(&chars("abc"), &chars(""), &chars("x"))), "abc");
    assert_eq!(text(&scan::remove_ignoring_case(&chars("abc"), &chars(""))), "abc");
}

#[test]
fn a_token_is_removed_in_any_case() {
    assert_eq!(text(&scan::remove_ignoring_case(&chars("xAuTo_IncrementY"), &chars("AUTO_INCREMENT"))), "xY");
    assert_eq!(text(&scan::remove_ignoring_case(&chars("a KEY b key c Key"), &chars("KEY"))), "a  b  c ");
    assert_eq!(text(&scan::remove_ignoring_case(&chars("kekeyy"), &chars("KEY"))), "key");
    assert_eq!(text(&scan::remove_ignoring_case(&chars("abc"), &chars("KEY"))), "abc");
    assert_eq!(text(&scan::remove_ignoring_case(&chars("key"), &chars("key"))), "key");
}

#[test]
fn text_is_split_into_lines() {
    assert_eq!(split(""), Vec::<String>::new());
    assert_eq!(split("a"), vec!["a"]);
    assert_eq!(split("a\n"), vec!["a"]);
    assert_eq!(split("a\nb"), vec!["a", "b"]);
    assert_eq!(split("a\n\nb"), vec!["a", "", "b"]);
    assert_eq!(split("\n"), vec![""]);
    assert_eq!(split("\n\n"), vec!["", ""]);
    assert_eq!(split("a\r\nb\r\n"), vec!["a", "b"]);
    assert_eq!(split("a\r\nb\r"), vec!["a", "b\r"]);
    assert_eq!(split("a\r\r\n"), vec!["a\r"]);
    assert_eq!(split("a\rb\n"), vec!["a\rb"]);
    assert_eq!(split("\r\n"), vec![""]);
}

#[test]
fn splitting_agrees_with_the_standard_library() {
    for s in ["", "a", "a\n", "\na", "a\r\nb\r", "a\r\r\n\r\n", "\r", "\r\n\n\r\n", "a\nb\nc\n\n"] {
        let expected: Vec<String> = s.lines().map(|l| l.to_string()).collect();
        assert_eq!(split(s), expected, "{:?}", s);
    }
}

#[test]
fn lines_are_joined_by_line_feeds() {
    assert_eq!(join(&[]), "");
    assert_eq!(join(&["a"]), "a");
    assert_eq!(join(&["a", "b"]), "a\nb");
    assert_eq!(join(&["a", "", "b", ""]), "a\n\nb\n");
    assert_eq!(join(&["", ""]), "\n");
}

#[test]
fn a_window_is_cut_down_to_the_text() {
    assert_eq!(text(&scan::slice(&chars("abcdef"), 1, 3)), "bc");
    assert_eq!(text(&scan::slice(&chars("abcdef"), 0, 6)), "abcdef");
    assert_eq!(text(&scan::slice(&chars("abcdef"), 4, 100)), "ef");
    assert_eq!(text(&scan::slice(&chars("abcdef"), 3, 3)), "");
    assert_eq!(text(&scan::slice(&chars("abcdef"), 5, 2)), "");
    assert_eq!(text(&scan::slice(&chars("abcdef"), 7, 9)), "");
    assert_eq!(text(&scan::slice(&chars(""), 0, 1)), "");
}

#[test]
fn appending_keeps_what_was_there() {
    let mut v = chars("ab");
    scan::append(&mut v, &chars("cd"));
    assert_eq!(text(&v), "abcd");
    scan::append(&mut v, &chars(""));
    assert_eq!(text(&v), "abcd");
}
