use agent::tool::context::ToolContext;

#[test]
fn test_context_creation() {
    let ctx = ToolContext::new("ses_123", "msg_456", "/home/user/project");
    assert_eq!(ctx.session_id, "ses_123");
    assert_eq!(ctx.message_id, "msg_456");
    assert_eq!(ctx.working_directory, "/home/user/project");
}

#[test]
fn test_path_resolution() {
    let ctx = ToolContext::new("ses_123", "msg_456", "/home/user/project");

    let abs = ctx.resolve_path("/etc/config");
    assert_eq!(abs, "/etc/config");

    let rel = ctx.resolve_path("src/main.rs");
    assert_eq!(rel, "/home/user/project/src/main.rs");
}

#[test]
fn context_test_relative_path() {
    let ctx = ToolContext::new("ses_123", "msg_456", "/home/user/project");

    let full = "/home/user/project/src/main.rs";
    assert_eq!(ctx.relative_path(full), "src/main.rs");

    let outside = "/etc/config";
    assert_eq!(ctx.relative_path(outside), "/etc/config");
}

#[test]
fn a_new_context_has_the_default_agent_and_nothing_else_set() {
    let ctx = ToolContext::new("s", "m", "/w");
    assert_eq!(ctx.agent, "agent");
    assert_eq!(ctx.call_id, None);
    assert_eq!(ctx.provider_id, None);
    assert_eq!(ctx.model_id, None);
}

#[test]
fn with_call_id_and_with_model_set_their_fields_only() {
    let ctx = ToolContext::new("s", "m", "/w").with_call_id("call_1");
    assert_eq!(ctx.call_id.as_deref(), Some("call_1"));
    assert_eq!(ctx.session_id, "s");
    assert_eq!(ctx.provider_id, None);
    let ctx = ctx.with_model("provider", "model");
    assert_eq!(ctx.provider_id.as_deref(), Some("provider"));
    assert_eq!(ctx.model_id.as_deref(), Some("model"));
    assert_eq!(ctx.call_id.as_deref(), Some("call_1"));
    assert_eq!(ctx.working_directory, "/w");
}

#[test]
fn relative_path_goes_by_whole_components() {
    let ctx = ToolContext::new("s", "m", "/home/user/pro");
    assert_eq!(ctx.relative_path("/home/user/project/a"), "/home/user/project/a");
    assert_eq!(ctx.relative_path("/home/user/pro"), "");
}
