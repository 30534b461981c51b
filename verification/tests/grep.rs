use agent::error::AgentError;
use agent::json::Json;
use agent::tool::context::ToolContext;
use agent::tool::grep::{
    default_output_mode, default_true, is_hidden, matches_glob, search_file, search_lines,
    GrepParams, GrepRun, GrepTool,
};
use agent::tool::matcher::Matcher;

#[test]
fn test_glob_matching() {
    assert!(matches_glob("file.js", "*.js"));
    assert!(!matches_glob("file.ts", "*.js"));
    assert!(matches_glob("file.tsx", "**/*.tsx"));
}

#[test]
fn glob_matching_of_other_patterns_asks_for_the_very_name() {
    assert!(matches_glob("Makefile", "Makefile"));
    assert!(!matches_glob("Makefile.am", "Makefile"));
    assert!(!matches_glob("file.js", "**/*.ts"));
    assert!(!matches_glob("js", "*.js"));
    assert!(matches_glob(".js", "*.js"));
    assert!(!matches_glob("a.js", "*"));
}

#[test]
fn hidden_names_begin_with_a_dot() {
    assert!(is_hidden(".git"));
    assert!(is_hidden("..."));
    assert!(!is_hidden("."));
    assert!(!is_hidden(".."));
    assert!(!is_hidden("src"));
    assert!(!is_hidden(""));
}

#[test]
fn defaults_of_the_parameters() {
    assert_eq!(default_output_mode(), "files_with_matches");
    assert!(default_true());
}

fn params(pattern: &str) -> GrepParams {
    GrepParams {
        pattern: pattern.to_string(),
        path: None,
        glob: None,
        output_mode: default_output_mode(),
        case_insensitive: false,
        line_numbers: default_true(),
        context_before: None,
        context_after: None,
        context: None,
        head_limit: None,
    }
}

fn lines_of(text: &[&str]) -> Vec<Vec<char>> {
    text.iter().map(|l| l.chars().collect()).collect()
}

#[test]
fn search_lines_shows_matching_lines_with_numbers() {
    let ls = lines_of(&["hello world", "foo bar", "hello again"]);
    let hits = vec![true, false, true];
    assert_eq!(
        search_lines("test.txt", &ls, &hits, "content", true, 0, 0),
        vec!["test.txt:1: hello world", "test.txt:3: hello again"]
    );
    assert_eq!(
        search_lines("test.txt", &ls, &hits, "content", false, 0, 0),
        vec!["test.txt: hello world", "test.txt: hello again"]
    );
}

#[test]
fn search_lines_shows_the_lines_around_a_match() {
    let ls = lines_of(&["a", "b", "c", "d", "e"]);
    let hits = vec![false, false, true, false, false];
    assert_eq!(
        search_lines("f", &ls, &hits, "content", true, 1, 2),
        vec!["f:2: b", "f:3: c", "f:4: d", "f:5: e"]
    );
    assert_eq!(
        search_lines("f", &ls, &hits, "content", true, 10, 10),
        vec!["f:1: a", "f:2: b", "f:3: c", "f:4: d", "f:5: e"]
    );
    assert_eq!(
        search_lines("f", &ls, &hits, "content", true, usize::MAX, usize::MAX).len(),
        5
    );
}

#[test]
fn search_lines_shows_a_line_between_two_matches_twice() {
    let ls = lines_of(&["a", "b", "c"]);
    let hits = vec![true, false, true];
    assert_eq!(
        search_lines("f", &ls, &hits, "content", true, 1, 1),
        vec!["f:1: a", "f:2: b", "f:2: b", "f:3: c"]
    );
}

#[test]
fn search_lines_names_the_file_or_counts() {
    let ls = lines_of(&["a", "b", "c"]);
    let hits = vec![true, false, true];
    assert_eq!(search_lines("f", &ls, &hits, "files_with_matches", true, 0, 0), vec!["f"]);
    assert_eq!(search_lines("f", &ls, &hits, "count", true, 0, 0), vec!["f:2"]);
    assert!(search_lines("f", &ls, &hits, "other", true, 0, 0).is_empty());
}

#[test]
fn search_lines_gives_nothing_without_a_match() {
    let ls = lines_of(&["a", "b"]);
    for mode in ["content", "files_with_matches", "count"] {
        assert!(search_lines("f", &ls, &[false, false].to_vec(), mode, true, 1, 1).is_empty());
        assert!(search_lines("f", &ls, &Vec::new(), mode, true, 1, 1).is_empty());
    }
}

#[test]
fn search_file_matches_with_the_regular_expression() {
    let ctx = ToolContext::new("s", "m", "/work");
    let matcher = Matcher::compile("hel+o").unwrap();
    let found = search_file(
        "hello world\nfoo bar\nhello again",
        &matcher,
        "/work/test.txt",
        &ctx,
        "content",
        true,
        0,
        0,
    );
    assert_eq!(found, vec!["test.txt:1: hello world", "test.txt:3: hello again"]);
    assert!(matcher.is_match("say hellllo"));
    assert!(!matcher.is_match("HELLO"));
}

#[test]
fn a_pattern_that_does_not_compile_fails_the_call() {
    match Matcher::compile("foo(bar") {
        Err(AgentError::ToolExecution { tool, message }) => {
            assert_eq!(tool, "grep");
            assert!(message.starts_with("Invalid regex: "));
            assert!(message.len() > "Invalid regex: ".len());
        }
        Ok(_) => panic!("compiled"),
        Err(other) => panic!("{:?}", other),
    }
}

#[test]
fn plan_puts_the_flag_for_case_in_front() {
    let ctx = ToolContext::new("s", "m", "/work");
    let mut p = params("hello");
    p.case_insensitive = true;
    p.context = Some(2);
    p.context_before = Some(5);
    let plan = GrepTool.plan(&p, &ctx);
    assert_eq!(plan.pattern, "(?i)hello");
    assert_eq!(plan.title, "hello");
    assert_eq!(plan.search_path, "/work");
    assert_eq!(plan.context_before, 2);
    assert_eq!(plan.context_after, 2);
    let matcher = Matcher::compile(&plan.pattern).unwrap();
    assert!(matcher.is_match("Hello World"));
    assert!(matcher.is_match("HELLO WORLD"));

    let mut p = params("x");
    p.path = Some("src".to_string());
    p.context_before = Some(5);
    let plan = GrepTool.plan(&p, &ctx);
    assert_eq!(plan.pattern, "x");
    assert_eq!(plan.search_path, "/work/src");
    assert_eq!(plan.context_before, 5);
    assert_eq!(plan.context_after, 0);
}

#[test]
fn a_run_gathers_and_stops_at_its_limit() {
    let mut run = GrepRun::new();
    run.add(vec![], Some(1));
    assert!(!run.done);
    assert_eq!(run.match_count, 0);
    run.add(vec!["a".to_string(), "b".to_string()], Some(3));
    assert!(!run.done);
    run.add(vec!["c".to_string(), "d".to_string()], Some(3));
    assert!(run.done);
    assert_eq!(run.results, vec!["a", "b", "c"]);
    assert_eq!(run.match_count, 4);

    let mut run = GrepRun::new();
    run.add(vec!["a".to_string()], None);
    run.add(vec!["b".to_string()], None);
    assert!(!run.done);
    assert_eq!(run.results, vec!["a", "b"]);

    let plan = GrepTool.plan(&params("p"), &ToolContext::new("s", "m", "/w"));
    let result = GrepTool.finish(&plan, &run);
    assert_eq!(result.title, "p");
    assert_eq!(result.output, "a\nb");
    assert_eq!(result.metadata.get("count"), Some(&Json::Number(2)));
}

#[test]
fn a_run_keeps_counting_at_the_largest_number() {
    let mut run = GrepRun::new();
    run.match_count = u64::MAX - 1;
    run.add(vec!["a".to_string(), "b".to_string()], None);
    assert_eq!(run.match_count, u64::MAX);
}
