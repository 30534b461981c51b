use agent::error::AgentError;
use agent::id::IdGenerator;
use agent::json::Json;
use agent::tool::context::ToolContext;
use agent::tool::read::{
    find_suggestions, format_page, mime_of, similar_names, suggestion_dir, ReadParams, ReadTool,
};

fn params(path: &str, offset: Option<usize>, limit: Option<usize>) -> ReadParams {
    ReadParams { file_path: path.to_string(), offset, limit }
}

fn ctx() -> ToolContext {
    ToolContext::new("ses_test", "msg_test", "/work")
}

#[test]
fn a_text_file_is_read_with_numbered_lines() {
    let p = params("/work/test.txt", None, None);
    let plan = ReadTool.plan(&p, &ctx());
    assert_eq!(plan.path, "/work/test.txt");
    assert_eq!(plan.title, "test.txt");
    assert_eq!(plan.image, None);
    let result = ReadTool.read_text(&p, &plan, b"line 1\nline 2\nline 3\n").unwrap();
    assert_eq!(
        result.output,
        "<file>\n00001| line 1\n00002| line 2\n00003| line 3\n\n(End of file - total 3 lines)\n</file>"
    );
    assert_eq!(
        result.metadata.get("preview").and_then(|p| p.as_str()),
        Some("line 1\nline 2\nline 3")
    );
    assert_eq!(result.title, "test.txt");
    assert!(result.attachments.is_none());
}

#[test]
fn a_page_starts_at_the_offset_and_has_up_to_limit_lines() {
    let content: String = (1..=100).map(|i| format!("line {}\n", i)).collect();
    let p = params("/work/test.txt", Some(10), Some(5));
    let plan = ReadTool.plan(&p, &ctx());
    let result = ReadTool.read_text(&p, &plan, content.as_bytes()).unwrap();
    assert_eq!(
        result.output,
        "<file>\n00011| line 11\n00012| line 12\n00013| line 13\n00014| line 14\n00015| line 15\n\n(File has more lines. Use 'offset' parameter to read beyond line 15)\n</file>"
    );
    assert_eq!(
        result.metadata.get("preview").and_then(|p| p.as_str()),
        Some("line 11\nline 12\nline 13\nline 14\nline 15")
    );
}

fn chars(lines: &[&str]) -> Vec<Vec<char>> {
    lines.iter().map(|l| l.chars().collect()).collect()
}

#[test]
fn a_page_beyond_the_end_is_empty() {
    let ls = chars(&["a", "b"]);
    let (page, preview) = format_page(&ls, 5, 10);
    assert_eq!(page, "<file>\n\n\n(End of file - total 2 lines)\n</file>");
    assert_eq!(preview, "");
    let (page, _) = format_page(&ls, usize::MAX, usize::MAX);
    assert_eq!(page, "<file>\n\n\n(End of file - total 2 lines)\n</file>");
    let (page, _) = format_page(&ls, 1, usize::MAX);
    assert_eq!(page, "<file>\n00002| b\n\n(End of file - total 2 lines)\n</file>");
    let (page, _) = format_page(&ls, 0, 0);
    assert_eq!(
        page,
        "<file>\n\n\n(File has more lines. Use 'offset' parameter to read beyond line 0)\n</file>"
    );
    let (page, _) = format_page(&Vec::new(), 0, 2000);
    assert_eq!(page, "<file>\n\n\n(End of file - total 0 lines)\n</file>");
}

#[test]
fn long_lines_are_cut_off_after_2000_characters() {
    let long = "y".repeat(2001);
    let exact = "z".repeat(2000);
    let ls = chars(&[&long, &exact]);
    let (page, preview) = format_page(&ls, 0, 2000);
    assert_eq!(
        page,
        format!(
            "<file>\n00001| {}...\n00002| {}\n\n(End of file - total 2 lines)\n</file>",
            "y".repeat(2000),
            exact
        )
    );
    assert_eq!(preview, format!("{}\n{}", long, exact));
}

#[test]
fn the_preview_has_twenty_lines_at_most() {
    let lines: Vec<String> = (1..=30).map(|i| i.to_string()).collect();
    let refs: Vec<&str> = lines.iter().map(|l| l.as_str()).collect();
    let (_, preview) = format_page(&chars(&refs), 2, 25);
    assert_eq!(preview, lines[2..22].join("\n"));
}

#[test]
fn line_numbers_grow_beyond_five_digits() {
    let lines: Vec<Vec<char>> = vec![vec!['x']; 100_001];
    let (page, _) = format_page(&lines, 99_998, 3);
    assert_eq!(
        page,
        "<file>\n99999| x\n100000| x\n100001| x\n\n(End of file - total 100001 lines)\n</file>"
    );
}

#[test]
fn a_binary_file_is_refused() {
    let p = params("/work/test.bin", None, None);
    let plan = ReadTool.plan(&p, &ctx());
    match ReadTool.read_text(&p, &plan, &[0, 1, 2, 3, 0, 0, 0]) {
        Err(AgentError::BinaryFile { path }) => assert_eq!(path, "/work/test.bin"),
        other => panic!("{:?}", other),
    }
    let p = params("/work/notes.txt", None, None);
    let plan = ReadTool.plan(&p, &ctx());
    assert!(matches!(
        ReadTool.read_text(&p, &plan, b"a\x00b"),
        Err(AgentError::BinaryFile { .. })
    ));
}

#[test]
fn bytes_that_spell_no_text_are_replaced() {
    let p = params("/work/latin1.txt", None, None);
    let plan = ReadTool.plan(&p, &ctx());
    let result = ReadTool.read_text(&p, &plan, b"caf\xe9\nok").unwrap();
    assert_eq!(
        result.output,
        "<file>\n00001| caf\u{fffd}\n00002| ok\n\n(End of file - total 2 lines)\n</file>"
    );
}

#[test]
fn a_missing_file_gets_up_to_three_similar_names() {
    let entries: Vec<String> = ["Main.rs", "main.rs.bak", "lib.rs", "old_main.rs", "main.rs~", "x"]
        .iter()
        .map(|s| s.to_string())
        .collect();
    assert_eq!(
        find_suggestions("/src/main.rs", Some(&entries)),
        vec!["/src/Main.rs", "/src/main.rs.bak", "/src/old_main.rs"]
    );
    assert!(find_suggestions("/src/main.rs", None).is_empty());
    assert!(find_suggestions("/src/main.rs", Some(&vec![])).is_empty());
    // a name that the wanted name holds counts too
    let entries = vec!["main".to_string(), "other".to_string()];
    assert_eq!(find_suggestions("/src/main.rs", Some(&entries)), vec!["/src/main"]);
}

#[test]
fn suggestions_come_from_the_directory_above() {
    assert_eq!(suggestion_dir("/nonexistent/file.txt"), "/nonexistent");
    assert_eq!(suggestion_dir("file.txt"), "");
    assert_eq!(suggestion_dir("/"), ".");
    assert_eq!(suggestion_dir(""), ".");
}

#[test]
fn a_missing_file_fails_the_call_with_its_suggestions() {
    let p = params("/nonexistent/file.txt", None, None);
    let plan = ReadTool.plan(&p, &ctx());
    let entries = vec!["file.txt.orig".to_string()];
    match ReadTool.missing(&plan, Some(&entries)) {
        AgentError::FileNotFound { path, suggestions } => {
            assert_eq!(path, "/nonexistent/file.txt");
            assert_eq!(suggestions, vec!["/nonexistent/file.txt.orig"]);
        }
        other => panic!("{:?}", other),
    }
}

#[test]
fn an_image_is_handed_back_as_a_data_url() {
    let p = params("/work/icon.PNG", None, None);
    let context = ctx();
    let plan = ReadTool.plan(&p, &context);
    assert_eq!(plan.image, Some("PNG"));
    let png = [0x89, 0x50, 0x4E, 0x47, 0x0D, 0x0A, 0x1A, 0x0A];
    let mut generator = IdGenerator::new();
    let result = ReadTool
        .read_image(&plan, plan.image.unwrap(), &context, &png, &mut generator)
        .unwrap();
    assert_eq!(result.title, "icon.PNG");
    assert_eq!(result.output, "Image read successfully");
    assert_eq!(
        result.metadata.get("preview").and_then(|p| p.as_str()),
        Some("Image read successfully")
    );
    let attachments = result.attachments.unwrap();
    assert_eq!(attachments.len(), 1);
    let a = &attachments[0];
    assert!(a.id.starts_with("prt_"));
    assert_eq!(a.id.len(), 30);
    assert_eq!(a.session_id, "ses_test");
    assert_eq!(a.message_id, "msg_test");
    assert_eq!(a.attachment_type, "file");
    assert_eq!(a.mime, "image/png");
    assert_eq!(a.url, "data:image/png;base64,iVBORw0KGgo=");
    let json = a.to_json();
    assert_eq!(json.get("sessionID").and_then(|v| v.as_str()), Some("ses_test"));
    assert_eq!(json.get("messageID").and_then(|v| v.as_str()), Some("msg_test"));
    assert_eq!(json.get("type").and_then(|v| v.as_str()), Some("file"));
    assert_eq!(json.get("mime").and_then(|v| v.as_str()), Some("image/png"));
    assert_eq!(json.get("url").and_then(|v| v.as_str()), Some(a.url.as_str()));
    assert_eq!(json.get("id").and_then(|v| v.as_str()), Some(a.id.as_str()));
}

#[test]
fn an_image_with_the_wrong_content_fails_the_call() {
    let p = params("/work/icon.png", None, None);
    let context = ctx();
    let plan = ReadTool.plan(&p, &context);
    let mut generator = IdGenerator::new();
    match ReadTool.read_image(&plan, "PNG", &context, b"not a png at all", &mut generator) {
        Err(AgentError::ToolExecution { tool, message }) => {
            assert_eq!(tool, "read");
            assert_eq!(
                message,
                "Image validation failed: /work/icon.png has image extension but does not contain valid PNG data"
            );
        }
        other => panic!("{:?}", other),
    }
}

#[test]
fn every_format_has_its_mime_type() {
    assert_eq!(mime_of("JPEG"), "image/jpeg");
    assert_eq!(mime_of("PNG"), "image/png");
    assert_eq!(mime_of("GIF"), "image/gif");
    assert_eq!(mime_of("BMP"), "image/bmp");
    assert_eq!(mime_of("WebP"), "image/webp");
    assert_eq!(mime_of("TIFF"), "image/tiff");
    assert_eq!(mime_of("SVG"), "image/svg+xml");
    assert_eq!(mime_of("ICO"), "image/x-icon");
    assert_eq!(mime_of("AVIF"), "image/avif");
    assert_eq!(mime_of("RAW"), "application/octet-stream");
}

#[test]
fn the_metadata_of_a_page_is_an_object() {
    let p = params("/work/a.txt", None, None);
    let plan = ReadTool.plan(&p, &ctx());
    let result = ReadTool.read_text(&p, &plan, b"").unwrap();
    assert_eq!(
        result.metadata,
        Json::Object(vec![agent::json::member("preview", Json::Text(String::new()))])
    );
}

#[test]
fn a_result_names_its_attachments_only_where_there_are_any() {
    let p = params("/work/a.txt", None, None);
    let plan = ReadTool.plan(&p, &ctx());
    let json = ReadTool.read_text(&p, &plan, b"x").unwrap().into_json();
    assert_eq!(json.get("title").and_then(|v| v.as_str()), Some("a.txt"));
    assert_eq!(
        json.get("output").and_then(|v| v.as_str()),
        Some("<file>\n00001| x\n\n(End of file - total 1 lines)\n</file>")
    );
    assert_eq!(
        json.get("metadata").and_then(|m| m.get("preview")).and_then(|v| v.as_str()),
        Some("x")
    );
    assert_eq!(json.get("attachments"), None);

    let p = params("/work/a.gif", None, None);
    let context = ctx();
    let plan = ReadTool.plan(&p, &context);
    let mut generator = IdGenerator::new();
    let result = ReadTool
        .read_image(&plan, "GIF", &context, b"GIF89a\x00\x00", &mut generator)
        .unwrap();
    let json = result.into_json();
    match json.get("attachments") {
        Some(Json::Array(items)) => {
            assert_eq!(items.len(), 1);
            assert_eq!(items[0].get("mime").and_then(|v| v.as_str()), Some("image/gif"));
            assert_eq!(
                items[0].get("url").and_then(|v| v.as_str()),
                Some("data:image/gif;base64,R0lGODlhAAA=")
            );
        }
        other => panic!("{:?}", other),
    }
}

#[test]
fn similar_names_are_the_first_three_that_hold_or_are_held() {
    let names: Vec<String> = ["main.rs", "xmain.rsx", "lib.rs", "ain", "", "main.rs2", "main.rs3"]
        .iter()
        .map(|s| s.to_string())
        .collect();
    assert_eq!(similar_names("main.rs", &names), vec![0, 1, 3]);
    assert_eq!(similar_names("lib.rs", &names), vec![2, 4]);
    assert_eq!(similar_names("", &names), vec![0, 1, 2]);
    assert_eq!(similar_names("zzz", &names), vec![4]);
    assert!(similar_names("zzz", &vec![]).is_empty());
}
