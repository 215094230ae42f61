use whisrs::text::{
    comes_before, decimal_text, is_whitespace, join_texts, parse_number, sort_distinct,
    split_char, split_words, text_contains, text_ends_with, text_starts_with, to_chars, to_text,
    trimmed,
};

#[test]
fn white_space_is_what_unicode_says() {
    for cp in 0..=0x10ffffu32 {
        if let Some(c) = char::from_u32(cp) {
            assert_eq!(is_whitespace(c), c.is_whitespace(), "U+{cp:04X}");
        }
    }
}

#[test]
fn texts_are_cut_and_joined_as_strings_are() {
    for s in ["", " a b ", "\u{a0}x\u{3000}", "a,b,,c", ",", "é中\n\r\tω", "🦀 ,"] {
        let chars = to_chars(s);
        assert_eq!(to_text(&chars), s);
        assert_eq!(trimmed(s), s.trim());
        let words: Vec<String> = split_words(&chars).iter().map(|w| to_text(w)).collect();
        assert_eq!(words, s.split_whitespace().collect::<Vec<_>>());
        let parts: Vec<String> = split_char(&chars, ',').iter().map(|p| to_text(p)).collect();
        assert_eq!(parts, s.split(',').collect::<Vec<_>>());
        assert_eq!(join_texts(&parts, ", "), parts.join(", "));
    }
    assert_eq!(join_texts(&[], ", "), "");
}

#[test]
fn numbers_are_written_and_read_in_decimal() {
    for n in [0, 7, 10, 4711, u64::MAX] {
        assert_eq!(decimal_text(n), n.to_string());
        assert_eq!(parse_number(&n.to_string()), Some(n));
    }
    for s in ["", "+", "-1", "+12", "007", "1 ", "１", "18446744073709551616"] {
        assert_eq!(parse_number(s), s.parse::<u64>().ok(), "{s:?}");
    }
}

#[test]
fn parts_of_texts_are_found() {
    for (s, part) in [("abc", "b"), ("abc", ""), ("", ""), ("", "a"), ("aab", "ab"), ("é", "é")] {
        assert_eq!(text_contains(s, part), s.contains(part));
        assert_eq!(text_starts_with(s, part), s.starts_with(part));
        assert_eq!(text_ends_with(s, part), s.ends_with(part));
    }
}

#[test]
fn texts_are_ordered_as_strings_are() {
    let list = ["b", "", "a", "aa", "é", "b", "Z", "🦀", "\u{ffff}"];
    for a in list {
        for b in list {
            assert_eq!(comes_before(a, b), a < b, "{a:?} {b:?}");
        }
    }
    let owned: Vec<String> = list.iter().map(|s| s.to_string()).collect();
    let mut expected = owned.clone();
    expected.sort();
    expected.dedup();
    assert_eq!(sort_distinct(&owned), expected);
}
