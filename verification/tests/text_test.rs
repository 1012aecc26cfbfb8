use lazyssh::text::{
    char_is_space, chars_of, contains_chars, decimal_string, find_char_line_end, insert_char,
    matches_at, parse_u16, push_decimal, push_padded, push_padded_left, remove_range, same_chars,
    split_text, text_of_range, trimmed_string,
};
use lazyssh::ui::truncate;

fn parse(text: &str) -> Option<u16> {
    parse_u16(&chars_of(text))
}

#[test]
fn test_parse_u16_accepts_what_the_standard_parser_accepts() {
    let samples = vec![
        "", "+", "-", "0", "00", "0022", "22", "+22", "++22", "-22", "65535", "65536", "99999",
        "100000", "4294967296", "18446744073709551616", " 22", "22 ", "2 2", "2_2", "0x16",
        "٢٢", "２２", "1e3", "+0", "+65535", "+65536",
    ];
    for s in samples {
        assert_eq!(parse(s), s.parse::<u16>().ok(), "for {:?}", s);
    }
    assert_eq!(parse("22"), Some(22));
    assert_eq!(parse("65535"), Some(65535));
    assert_eq!(parse("65536"), None);
    assert_eq!(parse("invalid"), None);
}

#[test]
fn test_decimal_string_writes_what_parse_reads() {
    assert_eq!(decimal_string(0), "0");
    assert_eq!(decimal_string(7), "7");
    assert_eq!(decimal_string(10), "10");
    assert_eq!(decimal_string(22), "22");
    assert_eq!(decimal_string(65535), "65535");
    assert_eq!(decimal_string(u128::MAX), u128::MAX.to_string());
    for n in [0u16, 1, 9, 10, 99, 100, 255, 1000, 2222, 65535] {
        assert_eq!(parse(&decimal_string(n as u128)), Some(n));
    }
    let mut out = String::from("x");
    push_decimal(&mut out, 305);
    assert_eq!(out, "x305");
}

#[test]
fn test_white_space_is_what_the_standard_library_calls_white_space() {
    let mut code: u32 = 0;
    while code <= 0x3100 {
        if let Some(c) = char::from_u32(code) {
            assert_eq!(char_is_space(c), c.is_whitespace(), "for U+{:04X}", code);
        }
        code += 1;
    }
    assert!(!char_is_space('\u{feff}'));
    assert!(!char_is_space('\u{10ffff}'));
}

#[test]
fn test_chars_and_ranges() {
    let chars = chars_of("aé中\n");
    assert_eq!(chars, vec!['a', 'é', '中', '\n']);
    assert_eq!(text_of_range(&chars, 1, 3), "é中");
    assert_eq!(text_of_range(&chars, 2, 2), "");
    assert_eq!(text_of_range(&chars, 0, 4), "aé中\n");
    assert_eq!(find_char_line_end(&chars, 0), 3);
    assert_eq!(find_char_line_end(&chars, 4), 4);
}

#[test]
fn test_search_in_characters() {
    let hay = chars_of("zh_hans");
    assert!(matches_at(&hay, &chars_of("zh"), 0));
    assert!(!matches_at(&hay, &chars_of("zh"), 1));
    assert!(matches_at(&hay, &chars_of("hans"), 3));
    assert!(!matches_at(&hay, &chars_of("hans"), 4));
    assert!(matches_at(&hay, &chars_of(""), 7));
    assert!(!matches_at(&hay, &chars_of(""), 8));
    assert!(contains_chars(&hay, &chars_of("hans")));
    assert!(contains_chars(&hay, &chars_of("")));
    assert!(!contains_chars(&hay, &chars_of("hant")));
    assert!(!contains_chars(&chars_of("a"), &chars_of("ab")));
    assert!(same_chars(&chars_of("ssh"), &chars_of("ssh")));
    assert!(!same_chars(&chars_of("ssh"), &chars_of("ssh ")));
    assert!(!same_chars(&chars_of("ssh"), &chars_of("ssx")));
}

#[test]
fn test_split_insert_remove_at_boundaries() {
    assert_eq!(split_text("aé中", 3), ("aé", "中"));
    assert_eq!(split_text("aé中", 0), ("", "aé中"));
    assert_eq!(split_text("aé中", 6), ("aé中", ""));
    assert_eq!(insert_char("aé中", 1, 'ü'), ("aüé中".to_string(), 3));
    assert_eq!(insert_char("", 0, '中'), ("中".to_string(), 3));
    assert_eq!(insert_char("ab", 2, '\n'), ("ab\n".to_string(), 3));
    assert_eq!(insert_char("ab", 1, '😀'), ("a😀b".to_string(), 5));
    assert_eq!(remove_range("aé中", 1, 3), "a中");
    assert_eq!(remove_range("aé中", 0, 6), "");
    assert_eq!(remove_range("aé中", 3, 3), "aé中");
}

#[test]
fn test_padding_counts_characters() {
    let mut out = String::from("[");
    push_padded(&mut out, "é中", 5);
    out.push(']');
    assert_eq!(out, format!("[{:5}]", "é中"));
    let mut out = String::new();
    push_padded(&mut out, "toolong", 3);
    assert_eq!(out, "toolong");
    let mut out = String::new();
    push_padded(&mut out, "", 2);
    assert_eq!(out, "  ");
    let mut out = String::from("[");
    push_padded_left(&mut out, "7", 2);
    assert_eq!(out, format!("[{:2}", 7));
    let mut out = String::new();
    push_padded_left(&mut out, "123", 2);
    assert_eq!(out, "123");
}

#[test]
fn test_trimmed_string() {
    let chars = chars_of("x  ls -l \t\r\ny");
    assert_eq!(trimmed_string(&chars, 1, 11), "ls -l");
    assert_eq!(trimmed_string(&chars, 1, 3), "");
    assert_eq!(trimmed_string(&chars, 0, 1), "x");
    assert_eq!(trimmed_string(&chars, 3, 3), "");
    assert_eq!(trimmed_string(&chars, 0, chars.len()), "x  ls -l \t\r\ny");
}

#[test]
fn test_truncate_never_splits_a_character() {
    // Six characters of three bytes each: 18 bytes.
    let text = "中中中中中中";
    assert_eq!(truncate(text, 18), text);
    assert_eq!(truncate(text, 17), "中中中中...");
    assert_eq!(truncate(text, 16), "中中中中...");
    assert_eq!(truncate(text, 15), "中中中中...");
    assert_eq!(truncate(text, 14), "中中中...");
    assert_eq!(truncate(text, 5), "...");
    assert_eq!(truncate(text, 3), "...");
    assert_eq!(truncate(text, 0), "...");
    assert_eq!(truncate("", 0), "");
    assert_eq!(truncate("abcd", 3), "...");
    assert_eq!(truncate("abcd", 2), "...");
}
