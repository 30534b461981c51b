use agent::error::AgentError;
use agent::json::Json;
use agent::tool::context::ToolContext;
use agent::tool::glob::{recency_order, GlobMatch, GlobParams, GlobTool};
use agent::tool::write::{WriteParams, WriteTool};

#[test]
fn write_plans_the_file_and_its_directory() {
    let ctx = ToolContext::new("s", "m", "/work");
    let params = WriteParams { content: "Hello, World!".to_string(), file_path: "a/b/file.txt".to_string() };
    let plan = WriteTool.plan(&params, &ctx);
    assert_eq!(plan.path, "/work/a/b/file.txt");
    assert_eq!(plan.title, "a/b/file.txt");
    assert_eq!(plan.parent.as_deref(), Some("/work/a/b"));
    let params = WriteParams { content: String::new(), file_path: "/".to_string() };
    let plan = WriteTool.plan(&params, &ctx);
    assert_eq!(plan.parent, None);
}

#[test]
fn write_tells_whether_the_file_was_there() {
    let ctx = ToolContext::new("s", "m", "/work");
    let params = WriteParams { content: "x".to_string(), file_path: "/tmp/new_file.txt".to_string() };
    let plan = WriteTool.plan(&params, &ctx);
    let result = WriteTool.finish(&plan, false);
    assert_eq!(result.title, "/tmp/new_file.txt");
    assert_eq!(result.output, "");
    assert_eq!(result.metadata.get("exists"), Some(&Json::Bool(false)));
    assert_eq!(
        result.metadata.get("filepath").and_then(|p| p.as_str()),
        Some("/tmp/new_file.txt")
    );
    assert_eq!(result.metadata.get("diagnostics"), Some(&Json::Object(vec![])));
    let result = WriteTool.finish(&plan, true);
    assert_eq!(result.metadata.get("exists"), Some(&Json::Bool(true)));
}

fn found(path: &str, modified: i128) -> GlobMatch {
    GlobMatch { path: path.to_string(), modified }
}

#[test]
fn glob_puts_the_directory_in_front_of_a_relative_pattern() {
    let ctx = ToolContext::new("s", "m", "/work");
    let plan = GlobTool.plan(&GlobParams { pattern: "*.txt".to_string(), path: None }, &ctx);
    assert_eq!(plan.pattern, "/work/*.txt");
    assert_eq!(plan.title, "*.txt");
    let plan = GlobTool.plan(
        &GlobParams { pattern: "**/*.rs".to_string(), path: Some("src".to_string()) },
        &ctx,
    );
    assert_eq!(plan.pattern, "/work/src/**/*.rs");
    let plan = GlobTool.plan(
        &GlobParams { pattern: "/etc/*.conf".to_string(), path: Some("src".to_string()) },
        &ctx,
    );
    assert_eq!(plan.pattern, "/etc/*.conf");
    assert_eq!(plan.title, "/etc/*.conf");
}

#[test]
fn glob_shows_the_file_changed_last_first() {
    let ctx = ToolContext::new("s", "m", "/work");
    let plan = GlobTool.plan(&GlobParams { pattern: "*.txt".to_string(), path: None }, &ctx);
    let matches = vec![
        found("/work/old.txt", 10),
        found("/work/new.txt", 30),
        found("/elsewhere/mid.txt", 20),
    ];
    let result = GlobTool.finish(&plan, &ctx, &matches);
    assert_eq!(result.output, "new.txt\n/elsewhere/mid.txt\nold.txt");
    assert_eq!(result.metadata.get("count"), Some(&Json::Number(3)));
    assert_eq!(result.title, "*.txt");
}

#[test]
fn glob_without_matches_gives_an_empty_output() {
    let ctx = ToolContext::new("s", "m", "/work");
    let plan = GlobTool.plan(&GlobParams { pattern: "*.rs".to_string(), path: None }, &ctx);
    let result = GlobTool.finish(&plan, &ctx, &vec![]);
    assert!(result.output.is_empty());
    assert_eq!(result.metadata.get("count"), Some(&Json::Number(0)));
}

#[test]
fn files_changed_at_the_same_time_keep_their_order() {
    let matches = vec![found("a", 5), found("b", 7), found("c", 5), found("d", 7), found("e", 1)];
    assert_eq!(recency_order(&matches), vec![1, 3, 0, 2, 4]);
    let mut expected: Vec<usize> = (0..matches.len()).collect();
    expected.sort_by(|a, b| matches[*b].modified.cmp(&matches[*a].modified));
    assert_eq!(recency_order(&matches), expected);
}

#[test]
fn a_pattern_that_cannot_be_expanded_fails_the_call() {
    match GlobTool.invalid_pattern("wildcards are either regular `*` or recursive `**`") {
        AgentError::ToolExecution { tool, message } => {
            assert_eq!(tool, "glob");
            assert_eq!(
                message,
                "Invalid pattern: wildcards are either regular `*` or recursive `**`"
            );
        }
        other => panic!("{:?}", other),
    }
}
