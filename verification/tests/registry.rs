use agent::json::Json;
use agent::tool::{Tool, ToolRegistry};

#[test]
fn test_registry_creation() {
    let registry = ToolRegistry::new();
    assert!(!registry.all().is_empty());
}

#[test]
fn test_tool_lookup() {
    let registry = ToolRegistry::new();
    assert!(registry.get("read").is_some());
    assert!(registry.get("write").is_some());
    assert!(registry.get("nonexistent").is_none());
}

#[test]
fn the_registry_lists_the_seven_tools_in_order() {
    let registry = ToolRegistry::default();
    let ids: Vec<&str> = registry.all().iter().map(|t| t.id()).collect();
    assert_eq!(ids, vec!["read", "write", "edit", "list", "glob", "grep", "bash"]);
    for id in ids {
        assert_eq!(registry.get(id).unwrap().id(), id);
    }
    assert_eq!(registry.get("Read"), None);
    assert_eq!(registry.get(""), None);
}

#[test]
fn descriptions_pair_each_name_with_its_text() {
    let registry = ToolRegistry::new();
    let descriptions = registry.descriptions();
    assert_eq!(descriptions.len(), 7);
    assert_eq!(descriptions[0].0, "read");
    assert!(descriptions[0].1.starts_with("Reads a file from the local filesystem."));
    assert_eq!(descriptions[6].0, "bash");
    assert!(descriptions[6].1.contains("default timeout of 2 minutes"));
    assert!(Tool::Grep.description().contains("\"function\\s+\\w+\""));
}

fn required(schema: &Json) -> Vec<String> {
    match schema.get("required") {
        Some(Json::Array(items)) => {
            items.iter().map(|i| i.as_str().unwrap().to_string()).collect()
        }
        None => vec![],
        other => panic!("{:?}", other),
    }
}

#[test]
fn every_schema_is_an_object_with_properties() {
    for tool in ToolRegistry::new().all() {
        let schema = tool.parameters_schema();
        assert_eq!(schema.get("type").and_then(|t| t.as_str()), Some("object"));
        assert!(matches!(schema.get("properties"), Some(Json::Object(_))));
    }
    assert_eq!(required(&Tool::Read.parameters_schema()), vec!["filePath"]);
    assert_eq!(required(&Tool::Write.parameters_schema()), vec!["content", "filePath"]);
    assert_eq!(
        required(&Tool::Edit.parameters_schema()),
        vec!["filePath", "oldString", "newString"]
    );
    assert_eq!(required(&Tool::List.parameters_schema()), Vec::<String>::new());
    assert_eq!(required(&Tool::Glob.parameters_schema()), vec!["pattern"]);
    assert_eq!(required(&Tool::Grep.parameters_schema()), vec!["pattern"]);
    assert_eq!(required(&Tool::Bash.parameters_schema()), vec!["command"]);
}

#[test]
fn the_grep_schema_names_its_output_modes() {
    let schema = Tool::Grep.parameters_schema();
    let mode = schema.get("properties").unwrap().get("output_mode").unwrap();
    assert_eq!(mode.get("type").and_then(|t| t.as_str()), Some("string"));
    assert_eq!(
        mode.get("enum"),
        Some(&Json::Array(vec![
            Json::Text("content".to_string()),
            Json::Text("files_with_matches".to_string()),
            Json::Text("count".to_string()),
        ]))
    );
    let flag = schema.get("properties").unwrap().get("-i").unwrap();
    assert_eq!(flag.get("description").and_then(|t| t.as_str()), Some("Case insensitive search"));
}
