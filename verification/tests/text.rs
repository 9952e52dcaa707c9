use goose::text::{
    chars_of, appended, contains, count, count_line_feeds, decimal_text, find_from, join_strings,
    join_strs, lines_of, same_text, split_on, text_of, words_of,
};

const SAMPLES: [&str; 12] = [
    "", "a", "\n", "a\n", "a\nb", "a\r\nb\r\n", "\r", "a\r", "a\n\n\nb", "aaa", "héllo wörld",
    "  two  words ",
];

#[test]
fn splits_like_str() {
    for s in SAMPLES {
        for sep in ["\n", "\n\n", "a", "aa", " ", "ö"] {
            let expected: Vec<String> = s.split(sep).map(String::from).collect();
            assert_eq!(split_on(s, sep), expected);
        }
    }
    assert_eq!(split_on("a\n\n\nb", "\n\n"), vec!["a".to_string(), "\nb".to_string()]);
}

#[test]
fn joins_what_was_split() {
    for s in SAMPLES {
        for sep in ["\n", "\n\n", "a", " "] {
            assert_eq!(join_strings(&split_on(s, sep), sep), s);
        }
    }
    assert_eq!(join_strs(&["x", "y", "z"], ", "), "x, y, z");
    assert_eq!(join_strs(&[], ", "), "");
}

#[test]
fn lines_like_str() {
    for s in SAMPLES {
        let expected: Vec<String> = s.lines().map(String::from).collect();
        assert_eq!(lines_of(s), expected);
    }
}

#[test]
fn words_like_str() {
    for s in SAMPLES {
        let expected: Vec<String> = s.split_whitespace().map(String::from).collect();
        assert_eq!(words_of(&chars_of(s), 0), expected);
    }
    assert_eq!(words_of(&chars_of("# a\u{3000}b"), 1), vec!["a", "b"]);
}

#[test]
fn white_space_is_the_unicode_property() {
    for n in 0..=0x10ffffu32 {
        if let Some(c) = char::from_u32(n) {
            let listed = (0x9..=0xd).contains(&n)
                || n == 0x20
                || n == 0x85
                || n == 0xa0
                || n == 0x1680
                || (0x2000..=0x200a).contains(&n)
                || n == 0x2028
                || n == 0x2029
                || n == 0x202f
                || n == 0x205f
                || n == 0x3000;
            assert_eq!(c.is_whitespace(), listed, "{:x}", n);
        }
    }
}

#[test]
fn counts_like_str() {
    for s in SAMPLES {
        for p in ["", "a", "aa", "\n", "ö", "zzz"] {
            assert_eq!(count(&chars_of(s), &chars_of(p)), s.matches(p).count());
        }
        let all = chars_of(s);
        assert_eq!(count_line_feeds(&all, all.len()), s.matches('\n').count());
    }
}

#[test]
fn finds_by_characters() {
    let s = chars_of("héllo héllo");
    assert_eq!(find_from(&s, &chars_of("llo"), 0), Some(2));
    assert_eq!(find_from(&s, &chars_of("llo"), 3), Some(8));
    assert_eq!(find_from(&s, &chars_of("llo"), 9), None);
    assert_eq!(find_from(&s, &[], 11), Some(11));
    assert_eq!(find_from(&[], &chars_of("x"), 0), None);
    assert!(contains("abc", "bc"));
    assert!(contains("abc", ""));
    assert!(!contains("abc", "cb"));
}

#[test]
fn texts_are_put_together() {
    assert_eq!(appended("ab", "cd"), "abcd");
    assert!(same_text("ab", "ab"));
    assert!(!same_text("ab", "aB"));
    assert_eq!(text_of(&chars_of("wörld"), 1, 3), "ör");
}

#[test]
fn decimals_like_display() {
    for n in [0usize, 7, 9, 10, 99, 100, 400_000, usize::MAX] {
        assert_eq!(decimal_text(n), n.to_string());
    }
}
