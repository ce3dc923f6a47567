use hyprquran::interchange::parse_line;
use hyprquran::text::{
    chars_of, contains_chars, decimal_string, find_char, is_whitespace, leading_run, parse_u16,
    same_text, trim_range,
};

fn chars(s: &str) -> Vec<char> {
    s.chars().collect()
}

#[test]
fn pipe_line_parses() {
    assert_eq!(
        parse_line("2|255|Some verse text"),
        Some((2, 255, "Some verse text".to_string()))
    );
}

#[test]
fn two_fields_without_text_are_skipped() {
    assert_eq!(parse_line("2|255"), None);
}

#[test]
fn leading_marker_is_ignored() {
    assert_eq!(parse_line("\u{feff}1|1|Text"), parse_line("1|1|Text"));
    assert_eq!(parse_line("\u{feff}1|1|Text"), Some((1, 1, "Text".to_string())));
    assert_eq!(parse_line("\u{feff}\u{feff}1|1|Text"), Some((1, 1, "Text".to_string())));
}

#[test]
fn blank_lines_are_skipped() {
    assert_eq!(parse_line(""), None);
    assert_eq!(parse_line("\u{feff}"), None);
    assert_eq!(parse_line("   "), None);
}

#[test]
fn tab_line_parses() {
    assert_eq!(parse_line("3\t7\tA text"), Some((3, 7, "A text".to_string())));
}

#[test]
fn tab_text_keeps_inner_tabs() {
    assert_eq!(parse_line("3\t7\tleft\tright"), Some((3, 7, "left\tright".to_string())));
}

#[test]
fn pipe_text_keeps_inner_pipes() {
    assert_eq!(parse_line("3|7|left|right"), Some((3, 7, "left|right".to_string())));
}

#[test]
fn a_line_with_a_pipe_is_never_read_as_tabs() {
    assert_eq!(parse_line("1\t2\ta|b"), None);
}

#[test]
fn fields_are_trimmed() {
    assert_eq!(parse_line(" 2 | 255 |  spaced out  "), Some((2, 255, "spaced out".to_string())));
    assert_eq!(parse_line("2\t 255 \t\u{3000}wide\u{a0}"), Some((2, 255, "wide".to_string())));
}

#[test]
fn empty_text_is_kept() {
    assert_eq!(parse_line("2|255|"), Some((2, 255, String::new())));
    assert_eq!(parse_line("2\t255\t"), Some((2, 255, String::new())));
}

#[test]
fn malformed_numbers_are_skipped() {
    assert_eq!(parse_line("x|1|t"), None);
    assert_eq!(parse_line("1|y|t"), None);
    assert_eq!(parse_line("|1|t"), None);
    assert_eq!(parse_line("1||t"), None);
    assert_eq!(parse_line("-1|1|t"), None);
    assert_eq!(parse_line("1|65536|t"), None);
    assert_eq!(parse_line("1 2|3|t"), None);
    assert_eq!(parse_line("no separators here"), None);
    assert_eq!(parse_line("1\t2"), None);
}

#[test]
fn numbers_read_as_the_standard_library_reads_them() {
    for s in ["0", "7", "007", "+7", "65535", "65536", "99999", "+", "", "-0", "1a", "١"] {
        let v = chars(s);
        assert_eq!(parse_u16(&v, 0, v.len()), s.parse::<u16>().ok(), "{:?}", s);
    }
    assert_eq!(parse_line("+2|065535|t"), Some((2, 65535, "t".to_string())));
}

#[test]
fn arabic_text_survives() {
    assert_eq!(
        parse_line("1|1|بِسْمِ اللَّهِ الرَّحْمَٰنِ الرَّحِيمِ"),
        Some((1, 1, "بِسْمِ اللَّهِ الرَّحْمَٰنِ الرَّحِيمِ".to_string()))
    );
}

#[test]
fn chars_of_gives_every_character() {
    assert_eq!(chars_of("aé本\u{feff}"), vec!['a', 'é', '本', '\u{feff}']);
    assert_eq!(chars_of(""), Vec::<char>::new());
}

#[test]
fn whitespace_is_what_trimming_removes() {
    for n in 0..=0x3100u32 {
        if let Some(c) = char::from_u32(n) {
            assert_eq!(is_whitespace(c), c.is_whitespace(), "{:x}", n);
        }
    }
    assert!(!is_whitespace('\u{feff}'));
    assert!(!is_whitespace('\u{200b}'));
}

#[test]
fn trim_range_matches_trim() {
    for s in ["", " ", "a", "  a b  ", "\t\na\r\n", "\u{2003}x\u{2028}", " \u{feff} "] {
        let v = chars(s);
        let (a, b) = trim_range(&v, 0, v.len());
        let got: String = v[a..b].iter().collect();
        assert_eq!(got, s.trim(), "{:?}", s);
    }
    let v = chars("ab  cd  ef");
    assert_eq!(trim_range(&v, 2, 8), (4, 6));
}

#[test]
fn leading_run_counts_markers() {
    assert_eq!(leading_run(&chars("\u{feff}\u{feff}a\u{feff}"), '\u{feff}'), 2);
    assert_eq!(leading_run(&chars("a"), '\u{feff}'), 0);
    assert_eq!(leading_run(&chars(""), '\u{feff}'), 0);
}

#[test]
fn find_char_gives_the_first() {
    let v = chars("a|b|c");
    assert_eq!(find_char(&v, 0, 5, '|'), Some(1));
    assert_eq!(find_char(&v, 2, 5, '|'), Some(3));
    assert_eq!(find_char(&v, 4, 5, '|'), None);
    assert_eq!(find_char(&v, 0, 1, '|'), None);
}

#[test]
fn contains_is_exact() {
    assert!(contains_chars(&chars("the light of"), &chars("light")));
    assert!(!contains_chars(&chars("the Light of"), &chars("light")));
    assert!(contains_chars(&chars("abc"), &chars("")));
    assert!(contains_chars(&chars(""), &chars("")));
    assert!(!contains_chars(&chars("ab"), &chars("abc")));
    assert!(contains_chars(&chars("aab"), &chars("ab")));
    assert!(contains_chars(&chars("50% off"), &chars("%")));
    assert!(!contains_chars(&chars("abc"), &chars("a_c")));
}

#[test]
fn same_text_compares_characters() {
    assert!(same_text("en", "en"));
    assert!(!same_text("en", "EN"));
    assert!(!same_text("en", "eng"));
    assert!(same_text("", ""));
}

#[test]
fn decimal_string_writes_numbers() {
    for n in [0u16, 1, 9, 10, 42, 114, 999, 1000, 65535] {
        assert_eq!(decimal_string(n), n.to_string());
    }
}
