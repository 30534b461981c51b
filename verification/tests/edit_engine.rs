use agent::error::AgentError;
use agent::tool::edit::{
    normalize_line_endings, replace, try_block_anchor_replace, try_exact_replace,
    try_line_trimmed_replace, try_whitespace_normalized_replace,
};

fn message_of(result: Result<String, AgentError>) -> String {
    match result {
        Err(AgentError::ToolExecution { tool, message }) => {
            assert_eq!(tool, "edit");
            message
        }
        other => panic!("expected a failed tool execution, got {:?}", other),
    }
}

#[test]
fn test_exact_replace() {
    let content = "hello world";
    let result = try_exact_replace(content, "world", "rust", false);
    assert_eq!(result, Some("hello rust".to_string()));
}

#[test]
fn test_multiple_matches_without_replace_all() {
    let content = "foo bar foo";
    let result = try_exact_replace(content, "foo", "baz", false);
    assert_eq!(result, None);
}

#[test]
fn test_replace_all() {
    let content = "foo bar foo";
    let result = try_exact_replace(content, "foo", "baz", true);
    assert_eq!(result, Some("baz bar baz".to_string()));
}

#[test]
fn exact_replace_reports_no_match() {
    assert_eq!(try_exact_replace("hello", "xyz", "q", false), None);
    assert_eq!(try_exact_replace("hello", "xyz", "q", true), None);
    assert_eq!(try_exact_replace("", "x", "q", false), None);
}

#[test]
fn exact_replace_treats_overlapping_occurrences_as_several() {
    assert_eq!(try_exact_replace("aaa", "aa", "b", false), None);
    assert_eq!(try_exact_replace("aaa", "aa", "b", true), Some("ba".to_string()));
}

#[test]
fn exact_replace_works_on_characters_beyond_ascii() {
    assert_eq!(
        try_exact_replace("grüße, wörld", "wörld", "世界", false),
        Some("grüße, 世界".to_string())
    );
}

#[test]
fn replace_substitutes_a_single_occurrence() {
    assert_eq!(
        replace("fn main() {}\n", "main", "start", false).unwrap(),
        "fn start() {}\n"
    );
}

#[test]
fn replace_all_replaces_every_occurrence() {
    assert_eq!(
        replace("foo bar foo baz foo", "foo", "qux", true).unwrap(),
        "qux bar qux baz qux"
    );
}

#[test]
fn replace_fails_as_ambiguous_on_several_occurrences() {
    let message = message_of(replace("foo bar foo baz foo", "foo", "qux", false));
    assert_eq!(message, "oldString found multiple times in content");
}

#[test]
fn replace_does_not_fall_through_after_an_ambiguous_exact_match() {
    // The second line alone matches once line by line, but the target
    // occurs twice as it stands, so the edit is refused.
    let message = message_of(replace("x foo\nfoo", "foo", "bar", false));
    assert_eq!(message, "oldString found multiple times in content");
}

#[test]
fn replace_fails_when_nothing_matches() {
    let message = message_of(replace("hello world", "absent", "x", false));
    assert_eq!(message, "oldString not found in content");
    let message = message_of(replace("", "absent", "x", true));
    assert_eq!(message, "oldString not found in content");
}

#[test]
fn line_trimmed_matches_despite_indentation() {
    let content = "fn a() {\n    let x = 1;\n    let y = 2;\n}\n";
    let old = "let x = 1;\nlet y = 2;";
    assert_eq!(try_exact_replace(content, old, "let z = 3;", false), None);
    assert_eq!(
        try_line_trimmed_replace(content, old, "    let z = 3;", false),
        Some("fn a() {\n    let z = 3;\n}\n".to_string())
    );
    assert_eq!(
        replace(content, old, "    let z = 3;", false).unwrap(),
        "fn a() {\n    let z = 3;\n}\n"
    );
}

#[test]
fn line_trimmed_refuses_several_windows() {
    let content = "  a\nb\n  a\nb";
    assert_eq!(try_line_trimmed_replace(content, " a \n b ", "c", false), None);
    let message = message_of(replace(content, " a \n b ", "c", false));
    assert_eq!(message, "oldString found multiple times in content");
}

#[test]
fn line_trimmed_replaces_all_windows_from_the_last_up() {
    let content = "  a\nb\n  a\nb";
    assert_eq!(
        try_line_trimmed_replace(content, " a \n b ", "c", true),
        Some("c\nc".to_string())
    );
}

#[test]
fn line_trimmed_finds_nothing_when_the_target_is_longer_than_the_content() {
    assert_eq!(try_line_trimmed_replace("a", "a\nb\nc", "x", false), None);
    assert_eq!(try_line_trimmed_replace("", "a", "x", false), None);
}

#[test]
fn whitespace_normalized_matches_a_single_line() {
    let content = "let   x  =   1;\nlet y = 2;";
    assert_eq!(
        try_whitespace_normalized_replace(content, "let x = 1;", "let x = 3;", false),
        Some("let x = 3;\nlet y = 2;".to_string())
    );
    assert_eq!(
        replace(content, "let x =\t1;", "let x = 3;", false).unwrap(),
        "let x = 3;\nlet y = 2;"
    );
}

#[test]
fn whitespace_normalized_refuses_several_lines() {
    let content = "a  b\nc\na   b";
    assert_eq!(try_whitespace_normalized_replace(content, "a b", "z", false), None);
    assert_eq!(
        try_whitespace_normalized_replace(content, "a b", "z", true),
        Some("z\nc\nz".to_string())
    );
}

#[test]
fn whitespace_normalized_does_not_span_lines() {
    assert_eq!(try_whitespace_normalized_replace("a\nb", "a b", "z", false), None);
}

#[test]
fn block_anchor_matches_by_first_and_last_line() {
    let content = "start {\n  one\n  two\n}\nafter";
    let old = "start {\n  something else\n}";
    assert_eq!(
        try_block_anchor_replace(content, old, "done", false),
        Some("done\nafter".to_string())
    );
    assert_eq!(replace(content, old, "done", false).unwrap(), "done\nafter");
}

#[test]
fn block_anchor_needs_three_lines_in_the_target() {
    let content = "a\nx\nb";
    assert_eq!(try_block_anchor_replace(content, "a\nb", "z", false), None);
}

#[test]
fn block_anchor_needs_a_line_between_the_anchors() {
    let content = "a\nb\nrest";
    assert_eq!(try_block_anchor_replace(content, "a\nmiddle\nb", "z", false), None);
}

#[test]
fn block_anchor_ends_at_the_nearest_last_line() {
    let content = "a\nx\nb\ny\nb";
    assert_eq!(
        try_block_anchor_replace(content, "a\nq\nb", "z", false),
        Some("z\ny\nb".to_string())
    );
}

#[test]
fn block_anchor_refuses_several_blocks() {
    let content = "a\nx\nb\na\ny\nb";
    assert_eq!(try_block_anchor_replace(content, "a\nq\nb", "z", false), None);
    assert_eq!(
        try_block_anchor_replace(content, "a\nq\nb", "z", true),
        Some("z\nz".to_string())
    );
}

#[test]
fn normalizing_line_endings_turns_crlf_into_lf() {
    assert_eq!(normalize_line_endings("a\r\nb\r\n"), "a\nb\n");
    assert_eq!(normalize_line_endings("a\nb"), "a\nb");
    assert_eq!(normalize_line_endings("a\rb"), "a\rb");
    assert_eq!(normalize_line_endings(""), "");
}

#[test]
fn normalizing_line_endings_twice_changes_nothing() {
    let once = normalize_line_endings("one\r\ntwo\r\n\r\nthree");
    assert_eq!(normalize_line_endings(&once), once);
}

#[test]
fn normalizing_leaves_a_line_break_after_a_doubled_return() {
    assert_eq!(normalize_line_endings("a\r\r\nb"), "a\r\nb");
}

#[test]
fn normalizing_twice_differs_exactly_after_a_doubled_return() {
    let alphabet = ['\r', '\n', 'a'];
    let mut texts = vec![String::new()];
    let mut last = vec![String::new()];
    for _ in 0..8 {
        let mut next = Vec::new();
        for t in &last {
            for c in alphabet {
                let mut longer = t.clone();
                longer.push(c);
                next.push(longer);
            }
        }
        texts.extend(next.iter().cloned());
        last = next;
    }
    for text in texts {
        let once = normalize_line_endings(&text);
        let twice = normalize_line_endings(&once);
        assert_eq!(once == twice, !text.contains("\r\r\n"), "{:?}", text);
    }
}

#[test]
fn line_trimmed_replaces_the_window_and_not_its_text_elsewhere() {
    assert_eq!(
        try_line_trimmed_replace("ba\na", "a ", "X", false),
        Some("ba\nX".to_string())
    );
    assert_eq!(replace("ba\na", "a ", "X", false).unwrap(), "ba\nX");
}

#[test]
fn whitespace_normalized_replaces_the_line_and_not_its_text_elsewhere() {
    assert_eq!(
        try_whitespace_normalized_replace("xa  b\na  b", "a b", "N", false),
        Some("xa  b\nN".to_string())
    );
    assert_eq!(replace("xa  b\na  b", "a b", "N", false).unwrap(), "xa  b\nN");
}

#[test]
fn block_anchor_replaces_the_block_and_not_its_text_elsewhere() {
    let content = "xs\nm\ney\ns\nm\ne";
    assert_eq!(
        try_block_anchor_replace(content, "s\nZ\ne", "N", false),
        Some("xs\nm\ney\nN".to_string())
    );
    assert_eq!(replace(content, "s\nZ\ne", "N", false).unwrap(), "xs\nm\ney\nN");
}

#[test]
fn a_window_keeps_the_line_ending_after_it() {
    assert_eq!(
        try_line_trimmed_replace("  a\r\n b\r\nc\r\n", "a\nb", "X", false),
        Some("X\r\nc\r\n".to_string())
    );
    assert_eq!(
        try_whitespace_normalized_replace("a  b\n", "a b", "N", false),
        Some("N\n".to_string())
    );
}

#[test]
fn overlapping_windows_are_not_replaced_twice() {
    // windows at lines 1-2 and 2-3 overlap; the last one is taken first
    assert_eq!(
        try_line_trimmed_replace(" a\n a\n a", "a\na", "X", true),
        Some(" a\nX".to_string())
    );
    // blocks at lines 1-4 and 2-4 overlap; the first one is taken first
    assert_eq!(
        try_block_anchor_replace(" a\n a\nx\nb\nrest", "a\nq\nb", "X", true),
        Some("X\nrest".to_string())
    );
}
