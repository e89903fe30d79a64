use stepper_control::text::{
    after_prefix, begins_with, blank, eq_ignore_ascii_case, find_last_text, find_text, has_char,
    has_text, join_lines, replaced, same_text, slice_text, split_lines, split_once, trimmed,
    trimmed_start, white_space,
};

#[test]
fn white_space_is_that_of_unicode() {
    for n in 0..=0x10ffffu32 {
        if let Some(c) = char::from_u32(n) {
            assert_eq!(white_space(c), c.is_whitespace(), "{:x}", n);
        }
    }
}

#[test]
fn trimming_is_that_of_std() {
    for s in [
        "", " ", "\t a b \r\n", "a", "\u{3000}ok\u{a0}", " ok", "x \u{2028}", "\u{200b}a",
    ] {
        assert_eq!(trimmed(s), s.trim());
        assert_eq!(trimmed_start(s), s.trim_start());
        assert_eq!(blank(s), s.trim().is_empty());
    }
}

#[test]
fn lines_are_those_of_std() {
    for s in [
        "", "\n", "a", "a\n", "a\nb", "a\r\nb\r\n", "a\r", "\r\n\r\n", "a\n\nb\n", "\ra\r\r\nb", "é\nß",
    ] {
        let ours = split_lines(s);
        let std: Vec<&str> = s.lines().collect();
        assert_eq!(ours, std, "{:?}", s);
    }
}

#[test]
fn lines_read_back() {
    let ls = vec!["a".to_string(), "".to_string(), "b c".to_string()];
    let text = join_lines(&ls);
    assert_eq!(text, "a\n\nb c\n");
    assert_eq!(split_lines(&text), ls);
}

#[test]
fn searching_counts_characters() {
    assert_eq!(find_text("é Y1 Y2", " Y"), Some(1));
    assert_eq!(find_last_text("é Y1 Y2", " Y"), Some(4));
    assert_eq!(find_text("abc", "abcd"), None);
    assert_eq!(find_last_text("abc", "d"), None);
    assert_eq!(find_text("abc", ""), Some(0));
    assert!(has_text("echo: M92 Y80", "M92"));
    assert!(!has_text("echo: M92 Y80", "M203"));
    assert!(has_char("a b", ' '));
    assert!(!has_char("ab", ' '));
}

#[test]
fn prefixes_and_parts() {
    assert_eq!(after_prefix("y_min: open", "y_min:"), Some(" open".to_string()));
    assert_eq!(after_prefix("y_min", "y_min:"), None);
    assert!(begins_with("#x", "#"));
    assert!(!begins_with("", "#"));
    assert_eq!(split_once("a=b=c", '='), Some(("a".to_string(), "b=c".to_string())));
    assert_eq!(split_once("abc", '='), None);
    assert_eq!(slice_text("äbc", 1, 2), "b");
    assert_eq!(replaced("a;b;", ';', '\n'), "a\nb\n");
    assert!(same_text("a", "a"));
    assert!(!same_text("a", "A"));
}

#[test]
fn ascii_case_is_ignored() {
    assert!(eq_ignore_ascii_case("TRIGGered", "triggered"));
    assert!(!eq_ignore_ascii_case("triggere", "triggered"));
    assert!(!eq_ignore_ascii_case("É", "é"));
    assert!(!eq_ignore_ascii_case("[", "{"));
}
