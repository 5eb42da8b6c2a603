use my_claw::order::stable_order;
use my_claw::text::{
    char_count, chars_of, collapse_whitespace, contains, count_bytes, decimal_of, ends_with,
    find_from, is_ascii_alphanumeric, is_before, is_whitespace, join, lines_of, normalize_label,
    parse_usize, replace_all, starts_with, string_of, take_chars, to_ascii_lower, to_lower_char,
    trim, trim_class, trim_end_class, trim_start_class, words_of, CharClass,
};

const SAMPLES: [&str; 14] = [
    "",
    " ",
    "a",
    " a ",
    "\t one  two\n three \r\n",
    "\u{a0}x\u{3000}",
    "line\nline\r\nlast",
    "line\n",
    "\n\n",
    "\r\n",
    "a\rb\r\r\n",
    "na\u{ef}ve \u{1f600}",
    "AbC-123_\u{c9}",
    "aaa",
];

#[test]
fn characters_are_classed_as_in_the_standard_library() {
    for n in 0..=0x10ffffu32 {
        if let Some(c) = char::from_u32(n) {
            assert_eq!(is_whitespace(c), c.is_whitespace(), "{n:x}");
            assert_eq!(is_ascii_alphanumeric(c), c.is_ascii_alphanumeric(), "{n:x}");
            assert_eq!(to_lower_char(c), c.to_ascii_lowercase(), "{n:x}");
        }
    }
}

#[test]
fn texts_are_trimmed() {
    for s in SAMPLES {
        assert_eq!(trim(s), s.trim());
        assert_eq!(trim(&trim(s)), s.trim());
        assert_eq!(trim_start_class(CharClass::Whitespace, s), s.trim_start());
        assert_eq!(trim_end_class(CharClass::Whitespace, s), s.trim_end());
        assert_eq!(trim_class(CharClass::One('a'), s), s.trim_matches('a'));
        assert_eq!(
            trim_end_class(CharClass::Two('\r', '\n'), s),
            s.trim_end_matches(|c| c == '\r' || c == '\n')
        );
    }
}

#[test]
fn texts_are_split_and_joined() {
    for s in SAMPLES {
        assert_eq!(lines_of(s), s.lines().collect::<Vec<_>>(), "{s:?}");
        assert_eq!(words_of(s), s.split_whitespace().collect::<Vec<_>>());
        assert_eq!(
            collapse_whitespace(s),
            s.split_whitespace().collect::<Vec<_>>().join(" ")
        );
        assert_eq!(join(&lines_of(s), ", "), s.lines().collect::<Vec<_>>().join(", "));
    }
}

#[test]
fn texts_are_searched() {
    for s in SAMPLES {
        for pat in ["", "a", "aa", "line", "\n", "\u{1f600}"] {
            assert_eq!(contains(s, pat), s.contains(pat));
            assert_eq!(starts_with(s, pat), s.starts_with(pat));
            assert_eq!(ends_with(s, pat), s.ends_with(pat));
            if !pat.is_empty() {
                assert_eq!(replace_all(s, pat, "<>"), s.replace(pat, "<>"));
            }
        }
        for other in SAMPLES {
            assert_eq!(is_before(s, other), s < other, "{s:?} {other:?}");
        }
    }
    let line = chars_of("abcabc");
    assert_eq!(find_from(&line, &chars_of("ca"), 0), Some(2));
    assert_eq!(find_from(&line, &chars_of("abc"), 1), Some(3));
    assert_eq!(find_from(&line, &chars_of("abc"), 4), None);
}

#[test]
fn texts_are_measured_and_cut() {
    for s in SAMPLES {
        assert_eq!(char_count(s), s.chars().count());
        assert_eq!(count_bytes(s), s.len());
        assert_eq!(to_ascii_lower(s), s.to_ascii_lowercase());
        assert_eq!(take_chars(s, 3), s.chars().take(3).collect::<String>());
    }
    assert_eq!(string_of(&chars_of("hello"), 1, 3), "el");
}

#[test]
fn numbers_are_written_and_read() {
    for n in [0u128, 7, 10, 99, 100, 65_535, 1_700_000_000_123, u64::MAX as u128, u128::MAX] {
        assert_eq!(decimal_of(n), n.to_string());
    }
    for s in [
        "0", "007", "+12", "-1", "", "+", " 1", "1 ", "x", "18446744073709551615",
        "18446744073709551616", "99999999999999999999",
    ] {
        assert_eq!(parse_usize(s), s.parse::<usize>().ok(), "{s:?}");
    }
}

#[test]
fn labels_are_checked() {
    assert_eq!(normalize_label("  Code_review-1 ", "task_id").unwrap(), "Code_review-1");
    let once = normalize_label(" a ", "name").unwrap();
    assert_eq!(normalize_label(&once, "name").unwrap(), once);
    assert_eq!(normalize_label("  ", "task_id").unwrap_err(), "task_id cannot be empty");
    assert_eq!(
        normalize_label(&"x".repeat(65), "task_id").unwrap_err(),
        "task_id too long (max 64 chars)"
    );
    assert!(normalize_label(&"x".repeat(64), "task_id").is_ok());
    assert_eq!(
        normalize_label(&"\u{e9}".repeat(33), "task_id").unwrap_err(),
        "task_id too long (max 64 chars)"
    );
    assert_eq!(
        normalize_label("a b", "member name").unwrap_err(),
        "member name can only contain letters, digits, '_' or '-'"
    );
}

#[test]
fn keys_are_ordered_stably() {
    let keys = vec![(3, 0), (1, 5), (3, 0), (1, 2), (0, 9)];
    assert_eq!(stable_order(&keys), vec![4, 3, 1, 0, 2]);
    assert!(stable_order(&vec![]).is_empty());
}
