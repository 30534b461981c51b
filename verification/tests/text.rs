use agent::text::{
    char_is_whitespace, chars_lowercase, comes_before, combine, decimal_text, find_from,
    from_chars, has_prefix, has_suffix, join_range, join_strings, matches_at, normalize_chars,
    padded_decimal_text, replace_all_in, replace_first_in, signed_decimal_text, split_lines,
    split_words, to_chars, trim_chars,
};

fn chars(s: &str) -> Vec<char> {
    s.chars().collect()
}

fn text(v: Vec<char>) -> String {
    v.into_iter().collect()
}

fn texts(v: Vec<Vec<char>>) -> Vec<String> {
    v.into_iter().map(text).collect()
}

#[test]
fn strings_and_characters_convert_both_ways() {
    for s in ["", "a", "héllo wörld", "日本語\n\t"] {
        assert_eq!(to_chars(s), chars(s));
        assert_eq!(from_chars(&chars(s)), s);
    }
}

#[test]
fn whitespace_is_what_unicode_says() {
    for c in 0..=0x10FFFFu32 {
        if let Some(c) = char::from_u32(c) {
            assert_eq!(char_is_whitespace(c), c.is_whitespace(), "{:?}", c);
        }
    }
}

#[test]
fn lines_split_as_in_the_standard_library() {
    for s in [
        "",
        "a",
        "a\n",
        "a\nb",
        "a\r\nb\r\n",
        "\n",
        "\n\n",
        "a\r",
        "a\r\n",
        "\r\n",
        "a\r\r\nb",
        "a\n\nb\n",
        "no newline at end\r",
        "x\ry\nz",
    ] {
        let expected: Vec<String> = s.lines().map(|l| l.to_string()).collect();
        assert_eq!(texts(split_lines(&chars(s))), expected, "{:?}", s);
    }
}

#[test]
fn trimming_takes_whitespace_from_both_ends() {
    for s in ["", " ", "  a  ", "a", "\t a b \n", "\u{a0}x\u{3000}", " \t\r\n", "a  "] {
        assert_eq!(text(trim_chars(&chars(s))), s.trim(), "{:?}", s);
    }
}

#[test]
fn words_split_as_in_the_standard_library() {
    for s in ["", " ", "a", " a  b\tc\n", "one", "  lead", "trail  ", "a\u{2003}b"] {
        let expected: Vec<String> = s.split_whitespace().map(|w| w.to_string()).collect();
        assert_eq!(texts(split_words(&chars(s))), expected, "{:?}", s);
        assert_eq!(text(normalize_chars(&chars(s))), expected.join(" "), "{:?}", s);
    }
}

#[test]
fn searching_finds_the_leftmost_occurrence() {
    let c = chars("abcabc");
    assert_eq!(find_from(&c, &chars("bc"), 0), Some(1));
    assert_eq!(find_from(&c, &chars("bc"), 1), Some(1));
    assert_eq!(find_from(&c, &chars("bc"), 2), Some(4));
    assert_eq!(find_from(&c, &chars("bc"), 5), None);
    assert_eq!(find_from(&c, &chars("x"), 0), None);
    assert_eq!(find_from(&c, &chars(""), 0), Some(0));
    assert_eq!(find_from(&c, &chars(""), 6), Some(6));
    assert_eq!(find_from(&c, &chars(""), 7), None);
    assert_eq!(find_from(&c, &chars("abcabcd"), 0), None);
    assert!(matches_at(&c, &chars("abc"), 3));
    assert!(!matches_at(&c, &chars("abc"), 4));
    assert!(!matches_at(&c, &chars("abc"), usize::MAX));
}

#[test]
fn replacing_agrees_with_the_standard_library() {
    for (c, o, n) in [
        ("foo bar foo", "foo", "baz"),
        ("aaaa", "aa", "b"),
        ("aaa", "aa", "b"),
        ("abc", "x", "y"),
        ("", "x", "y"),
        ("abc", "abc", ""),
        ("a\r\nb\r\n", "\r\n", "\n"),
        ("ababab", "ab", "abab"),
    ] {
        assert_eq!(
            text(replace_all_in(&chars(c), &chars(o), &chars(n))),
            c.replace(o, n),
            "{:?}",
            (c, o, n)
        );
        assert_eq!(
            text(replace_first_in(&chars(c), &chars(o), &chars(n))),
            c.replacen(o, n, 1),
            "{:?}",
            (c, o, n)
        );
    }
    assert_eq!(text(replace_first_in(&chars("abc"), &chars(""), &chars("-"))), "-abc");
}

#[test]
fn prefixes_and_suffixes() {
    assert!(has_prefix(&chars("abc"), &chars("ab")));
    assert!(has_prefix(&chars("abc"), &chars("")));
    assert!(!has_prefix(&chars("abc"), &chars("bc")));
    assert!(!has_prefix(&chars("a"), &chars("ab")));
    assert!(has_suffix(&chars("abc"), &chars("bc")));
    assert!(has_suffix(&chars("abc"), &chars("")));
    assert!(!has_suffix(&chars("abc"), &chars("ab")));
    assert!(!has_suffix(&chars("c"), &chars("bc")));
}

#[test]
fn numbers_are_written_in_decimal() {
    assert_eq!(text(decimal_text(0)), "0");
    assert_eq!(text(decimal_text(7)), "7");
    assert_eq!(text(decimal_text(10)), "10");
    assert_eq!(text(decimal_text(1234567890)), "1234567890");
    assert_eq!(text(decimal_text(u128::MAX)), u128::MAX.to_string());
    assert_eq!(text(signed_decimal_text(0)), "0");
    assert_eq!(text(signed_decimal_text(-5)), "-5");
    assert_eq!(text(signed_decimal_text(i64::MIN)), i64::MIN.to_string());
    assert_eq!(text(signed_decimal_text(i64::MAX)), i64::MAX.to_string());
    assert_eq!(text(padded_decimal_text(42, 5)), "00042");
    assert_eq!(text(padded_decimal_text(0, 5)), "00000");
    assert_eq!(text(padded_decimal_text(123456, 5)), "123456");
    assert_eq!(text(padded_decimal_text(12345, 5)), "12345");
    assert_eq!(text(padded_decimal_text(9, 0)), "9");
}

#[test]
fn lexicographic_order_is_that_of_strings() {
    let words = ["", "a", "ab", "b", "B", "é", "z", "aa", "~", "日本", "a\u{10ffff}"];
    for a in words {
        for b in words {
            assert_eq!(comes_before(&chars(a), &chars(b)), a < b, "{:?}", (a, b));
        }
    }
}

#[test]
fn joining_puts_the_separator_between_parts() {
    let parts = vec![chars("a"), chars(""), chars("c")];
    assert_eq!(text(join_range(&parts, 0, 3, &chars(", "))), "a, , c");
    assert_eq!(text(join_range(&parts, 1, 3, &chars("\n"))), "\nc");
    assert_eq!(text(join_range(&parts, 2, 2, &chars("\n"))), "");
    let strings = vec!["x".to_string(), "y".to_string()];
    assert_eq!(join_strings(&strings, "--"), "x--y");
    assert_eq!(join_strings(&vec![], "--"), "");
    assert_eq!(combine("ab", "cd"), "abcd");
}

#[test]
fn lowercase_changes_ascii_capitals_only() {
    assert_eq!(text(chars_lowercase(&chars("PNG.Jpeg ÄÖ 123"))), "png.jpeg ÄÖ 123");
}
