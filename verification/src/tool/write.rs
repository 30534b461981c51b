//! The write tool: where a file is to be written, and what to tell about it.

use crate::json::{member, members_view, Json, JsonValue, Member};
use crate::text::{opt_text, strings_view};
use crate::tool::context::ToolContext;
use crate::tool::{make_property, make_schema, property, schema, strings, ToolResult};
use crate::util::path::{parent, path_parent};
use vstd::prelude::*;

verus! {

/// What the write tool says of itself.
pub const DESCRIPTION: &'static str = "Writes content to a file on the local filesystem.\n\nUsage:\n- The filePath parameter must be an absolute path\n- Will create parent directories if they don't exist\n- Will overwrite existing files\n- Returns the path to the written file";

/// What the write tool is asked to do.
#[derive(Debug)]
pub struct WriteParams {
    /// What the file is to hold.
    pub content: String,
    /// The file to write.
    pub file_path: String,
}

/// The write tool.
pub struct WriteTool;

/// What the write tool has decided before it touches the file.
#[derive(Debug)]
pub struct WritePlan {
    /// The file to write, resolved against the working directory.
    pub path: String,
    /// The file as the result of the call shows it.
    pub title: String,
    /// The directory that must exist before the file can be written, where
    /// the path has one above it.
    pub parent: Option<String>,
}

/// What the write tool tells about a call: the file, and whether it was
/// there before.
pub open spec fn write_metadata(path: Seq<char>, existed: bool) -> JsonValue {
    JsonValue::Object(
        seq![
            ("diagnostics"@, JsonValue::Object(Seq::empty())),
            ("filepath"@, JsonValue::Text(path)),
            ("exists"@, JsonValue::Bool(existed)),
        ],
    )
}

impl WriteTool {
    /// The name by which the tool is called.
    pub fn id(&self) -> (s: &'static str)
        ensures
            s@ == "write"@,
    {
        "write"
    }

    /// What the tool says of itself.
    pub fn description(&self) -> (s: &'static str)
        ensures
            s@ == DESCRIPTION@,
    {
        DESCRIPTION
    }

    /// The parameters of the write tool.
    pub open spec fn parameters() -> JsonValue {
        schema(
            seq![
                property("content"@, "string"@, "The content to write to the file"@),
                property(
                    "filePath"@,
                    "string"@,
                    "The absolute path to the file to write (must be absolute, not relative)"@,
                ),
            ],
            seq!["content"@, "filePath"@],
        )
    }

    /// The description of the tool's parameters as a JSON Schema.
    pub fn parameters_schema(&self) -> (j: Json)
        ensures
            j@ == Self::parameters(),
    {
        let mut properties: Vec<Member> = Vec::new();
        properties.push(make_property("content", "string", "The content to write to the file"));
        properties.push(
            make_property(
                "filePath",
                "string",
                "The absolute path to the file to write (must be absolute, not relative)",
            ),
        );
        let required = strings(&vec!["content", "filePath"]);
        assert(members_view(properties@) =~= seq![
            property("content"@, "string"@, "The content to write to the file"@),
            property(
                "filePath"@,
                "string"@,
                "The absolute path to the file to write (must be absolute, not relative)"@,
            ),
        ]);
        assert(strings_view(required@) =~= seq!["content"@, "filePath"@]);
        make_schema(properties, &required)
    }

    /// Finds the file to write and the directory that it stands in.
    pub fn plan(&self, params: &WriteParams, ctx: &ToolContext) -> (p: WritePlan)
        ensures
            p.path@ == ctx.resolved(params.file_path@),
            p.title@ == ctx.shown(p.path@),
            opt_text(p.parent) == path_parent(p.path@),
    {
        let path = ctx.resolve_path(params.file_path.as_str());
        let title = ctx.relative_path(path.as_str());
        let above = parent(path.as_str());
        WritePlan { path, title, parent: above }
    }

    /// What the call returns once the file is written. `existed` tells
    /// whether the file was there before.
    pub fn finish(&self, plan: &WritePlan, existed: bool) -> (r: ToolResult)
        ensures
            r.title@ == plan.title@,
            r.output@ == Seq::<char>::empty(),
            r.metadata@ == write_metadata(plan.path@, existed),
            r.attachments is None,
    {
        let none: Vec<Member> = Vec::new();
        assert(members_view(none@) =~= Seq::empty());
        let mut top: Vec<Member> = Vec::new();
        top.push(member("diagnostics", Json::object(none)));
        top.push(member("filepath", Json::text(plan.path.as_str())));
        top.push(member("exists", Json::boolean(existed)));
        assert(members_view(top@) =~= seq![
            ("diagnostics"@, JsonValue::Object(Seq::empty())),
            ("filepath"@, JsonValue::Text(plan.path@)),
            ("exists"@, JsonValue::Bool(existed)),
        ]);
        ToolResult {
            title: plan.title.clone(),
            output: String::new(),
            metadata: Json::object(top),
            attachments: None,
        }
    }
}

} // verus!
