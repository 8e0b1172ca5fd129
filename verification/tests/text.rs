use prompt_scaler::text::{
    chars_le, decimal_string, is_whitespace, join_strings, line_bounds, parse_usize, sort_texts,
    str_eq, str_to_chars, to_ascii_lower, trim,
};

fn chars(s: &str) -> Vec<char> {
    s.chars().collect()
}

#[test]
fn decimal_strings() {
    for n in [0u64, 1, 9, 10, 11, 99, 100, 12345, u64::MAX] {
        assert_eq!(decimal_string(n), n.to_string());
    }
}

#[test]
fn unsigned_numbers_parse_as_in_std() {
    for text in [
        "0", "7", "007", "+7", "+", "", "-0", "-1", " 1", "1 ", "1_000", "0x10", "12a", "++1",
        "18446744073709551615", "18446744073709551616", "99999999999999999999999", "٣",
    ] {
        assert_eq!(parse_usize(&chars(text)), text.parse::<usize>().ok(), "parsing {:?}", text);
    }
}

#[test]
fn trimming_agrees_with_std() {
    for text in [
        "", " ", "a", "  a b  ", "\t\r\n a \u{a0}\u{2003}", "\u{3000}x\u{85}", "\u{200b}a\u{200b}",
        "\u{1680}\u{2028}\u{2029}\u{202f}\u{205f}end", "\u{feff}x", "\u{0b}\u{0c}x\u{1c}",
    ] {
        assert_eq!(trim(text), text.trim(), "trimming {:?}", text);
    }
}

#[test]
fn white_space_agrees_with_std() {
    for code in 0u32..0x3100 {
        if let Some(c) = char::from_u32(code) {
            assert_eq!(is_whitespace(c), c.is_whitespace(), "U+{:04X}", code);
        }
    }
    assert!(!is_whitespace('\u{feff}'));
    assert!(!is_whitespace('\u{10ffff}'));
}

#[test]
fn lines_agree_with_std() {
    for text in [
        "", "\n", "a", "a\n", "a\nb", "a\r\nb\r\n", "a\rb\n", "\r", "\r\n", "a\n\nb\n\n", "a\r",
        "foo\nbar\n\r\nbaz\r", "\n\n\n", "x\r\r\ny",
    ] {
        let all = chars(text);
        let lines: Vec<String> = line_bounds(&all)
            .into_iter()
            .map(|(from, to)| all[from..to].iter().collect())
            .collect();
        let expected: Vec<String> = text.lines().map(|l| l.to_string()).collect();
        assert_eq!(lines, expected, "lines of {:?}", text);
    }
}

#[test]
fn strings_compare_by_their_characters() {
    assert!(str_eq("", ""));
    assert!(str_eq("abc", "abc"));
    assert!(!str_eq("abc", "abd"));
    assert!(!str_eq("abc", "ab"));
    assert!(!str_eq("é", "e"));
    assert_eq!(str_to_chars("héllo"), chars("héllo"));
}

#[test]
fn lower_case_of_ascii_letters() {
    for code in 0u32..0x250 {
        let c = char::from_u32(code).unwrap();
        assert_eq!(to_ascii_lower(c), c.to_ascii_lowercase());
    }
}

#[test]
fn lexical_order_agrees_with_std() {
    let samples = ["", "a", "ab", "b", "B", "a-1", "a-10", "a-2", "é", "z", "\u{10000}", "\u{ffff}"];
    for a in samples {
        for b in samples {
            assert_eq!(chars_le(&chars(a), &chars(b)), a <= b, "comparing {:?} and {:?}", a, b);
        }
    }
}

#[test]
fn sorting_agrees_with_std() {
    let texts: Vec<String> = ["p-3", "p-10", "", "p-1", "a", "p-3", "é", "Z"]
        .into_iter()
        .map(|t| t.to_string())
        .collect();
    let mut expected = texts.clone();
    expected.sort();
    assert_eq!(sort_texts(texts), expected);
    assert_eq!(sort_texts(vec![]), Vec::<String>::new());
}

#[test]
fn joining() {
    let parts = vec!["a".to_string(), "".to_string(), "c".to_string()];
    assert_eq!(join_strings(&parts, ", "), "a, , c");
    assert_eq!(join_strings(&vec!["only".to_string()], "--"), "only");
    assert_eq!(join_strings(&vec![], "--"), "");
}
