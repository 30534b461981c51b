use agent::error::AgentError;
use agent::json::Json;
use agent::tool::context::ToolContext;
use agent::tool::list::{
    format_entry, format_size, list_directory, sort_lines, DirEntry, ListParams, ListTool,
    Listing,
};

#[test]
fn test_format_size() {
    assert_eq!(format_size(0), "0B");
    assert_eq!(format_size(512), "512B");
    assert_eq!(format_size(1024), "1.0KB");
    assert_eq!(format_size(1536), "1.5KB");
    assert_eq!(format_size(1048576), "1.0MB");
    assert_eq!(format_size(1073741824), "1.0GB");
}

#[test]
fn format_size_agrees_with_floating_point_formatting() {
    let samples: [u64; 30] = [
        1,
        1023,
        1025,
        1075,
        1076,
        1077,
        1126,
        1127,
        1128,
        1229,
        2047,
        2048,
        10 * 1024 - 1,
        1024 * 1024 - 1,
        1024 * 1024 + 52428,
        1024 * 1024 + 52429,
        1024 * 1024 * 1024 - 1,
        1024 * 1024 * 1024 + 53687091,
        5 * 1024 * 1024 * 1024 + 1,
        (1 << 53) - 1,
        1 << 53,
        (1 << 53) + 1,
        (1 << 53) + 3,
        (1 << 60) + (1 << 7),
        (1 << 60) + (1 << 7) + 1,
        (1 << 63) + 1024,
        (1 << 63) + 1025,
        u64::MAX - 1,
        u64::MAX,
        123456789012345678,
    ];
    for bytes in samples {
        let expected = if bytes >= 1 << 30 {
            format!("{:.1}GB", bytes as f64 / (1u64 << 30) as f64)
        } else if bytes >= 1 << 20 {
            format!("{:.1}MB", bytes as f64 / (1u64 << 20) as f64)
        } else if bytes >= 1 << 10 {
            format!("{:.1}KB", bytes as f64 / (1u64 << 10) as f64)
        } else {
            format!("{}B", bytes)
        };
        assert_eq!(format_size(bytes), expected, "{}", bytes);
    }
}

#[test]
fn format_size_rounds_halves_to_even() {
    // 1.25 KB and 1.75 KB lie exactly between two tenths
    assert_eq!(format_size(1280), "1.2KB");
    assert_eq!(format_size(1792), "1.8KB");
    assert_eq!(format_size(1024 + 51), "1.0KB");
    assert_eq!(format_size(1024 + 52), "1.1KB");
}

fn chars(s: &str) -> Vec<char> {
    s.chars().collect()
}

#[test]
fn entries_are_marked_and_annotated() {
    let dir = DirEntry { name: "subdir".to_string(), is_dir: true, size: 4096 };
    let file = DirEntry { name: "data.txt".to_string(), is_dir: false, size: 1536 };
    assert_eq!(format_entry(&dir), chars("subdir/"));
    assert_eq!(format_entry(&file), chars("data.txt (1.5KB)"));
}

#[test]
fn a_directory_is_listed_in_lexicographic_order() {
    let entries = vec![
        DirEntry { name: "zeta".to_string(), is_dir: true, size: 0 },
        DirEntry { name: "notes.txt".to_string(), is_dir: false, size: 1536 },
        DirEntry { name: "Alpha".to_string(), is_dir: false, size: 12 },
    ];
    assert_eq!(
        list_directory(&entries),
        vec!["Alpha (12B)", "notes.txt (1.5KB)", "zeta/"]
    );
}

#[test]
fn sort_lines_orders_as_strings_do() {
    let mut words = vec!["b", "a", "", "ab", "B", "a", "é", "z", "aa", "~"];
    let sorted: Vec<String> = sort_lines(words.iter().map(|w| chars(w)).collect())
        .into_iter()
        .map(|l| l.into_iter().collect())
        .collect();
    words.sort();
    assert_eq!(sorted, words);
}

#[test]
fn list_gives_lines_count_and_title() {
    let ctx = ToolContext::new("s", "m", "/work");
    let tool = ListTool;
    let plan = tool.plan(&ListParams { path: None }, &ctx);
    assert_eq!(plan.path, "/work");
    assert_eq!(plan.title, "");
    let listing = Listing::Entries(vec![
        DirEntry { name: "sub".to_string(), is_dir: true, size: 0 },
        DirEntry { name: "file.bin".to_string(), is_dir: false, size: 1536 },
    ]);
    let result = tool.finish(&plan, &listing).unwrap();
    assert_eq!(result.title, ".");
    assert_eq!(result.output, "file.bin (1.5KB)\nsub/");
    assert_eq!(result.metadata.get("count"), Some(&Json::Number(2)));
    assert!(result.attachments.is_none());
}

#[test]
fn list_resolves_a_given_path() {
    let ctx = ToolContext::new("s", "m", "/work");
    let tool = ListTool;
    let plan = tool.plan(&ListParams { path: Some("src".to_string()) }, &ctx);
    assert_eq!(plan.path, "/work/src");
    assert_eq!(plan.title, "src");
    let result = tool.finish(&plan, &Listing::Entries(vec![])).unwrap();
    assert_eq!(result.title, "src");
    assert_eq!(result.output, "");
    assert_eq!(result.metadata.get("count"), Some(&Json::Number(0)));
}

#[test]
fn list_fails_on_what_is_missing_or_no_directory() {
    let ctx = ToolContext::new("s", "m", "/work");
    let tool = ListTool;
    let plan = tool.plan(&ListParams { path: Some("/nonexistent/path".to_string()) }, &ctx);
    match tool.finish(&plan, &Listing::Missing) {
        Err(AgentError::FileNotFound { path, suggestions }) => {
            assert_eq!(path, "/nonexistent/path");
            assert!(suggestions.is_empty());
        }
        other => panic!("{:?}", other),
    }
    match tool.finish(&plan, &Listing::NotDirectory) {
        Err(AgentError::ToolExecution { tool, message }) => {
            assert_eq!(tool, "list");
            assert_eq!(message, "Not a directory: /nonexistent/path");
        }
        other => panic!("{:?}", other),
    }
}
