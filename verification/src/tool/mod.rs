//! The tools and what they share: the result of a call, the description of
//! a tool's parameters, and the registry that holds the tools.

pub mod bash;
pub mod context;
pub mod diff;
pub mod edit;
pub mod edit_proofs;
pub mod glob;
pub mod grep;
pub mod list;
pub mod matcher;
pub mod read;
pub mod write;

use crate::json::{items_view, member, member_value, members_view, Json, JsonValue, Member};
use crate::text::{same, strings_view, to_chars};
use vstd::prelude::*;

verus! {

/// A file that a tool hands back beside its text, such as an image.
#[derive(Debug, Clone)]
pub struct FileAttachment {
    pub id: String,
    pub session_id: String,
    pub message_id: String,
    pub attachment_type: String,
    pub mime: String,
    pub url: String,
}

impl FileAttachment {
    /// The JSON form of the attachment.
    pub open spec fn json(&self) -> JsonValue {
        JsonValue::Object(
            seq![
                ("id"@, JsonValue::Text(self.id@)),
                ("sessionID"@, JsonValue::Text(self.session_id@)),
                ("messageID"@, JsonValue::Text(self.message_id@)),
                ("type"@, JsonValue::Text(self.attachment_type@)),
                ("mime"@, JsonValue::Text(self.mime@)),
                ("url"@, JsonValue::Text(self.url@)),
            ],
        )
    }

    /// Writes the attachment as JSON.
    pub fn to_json(&self) -> (j: Json)
        ensures
            j@ == self.json(),
    {
        let mut members: Vec<Member> = Vec::new();
        members.push(member("id", Json::text(self.id.as_str())));
        members.push(member("sessionID", Json::text(self.session_id.as_str())));
        members.push(member("messageID", Json::text(self.message_id.as_str())));
        members.push(member("type", Json::text(self.attachment_type.as_str())));
        members.push(member("mime", Json::text(self.mime.as_str())));
        members.push(member("url", Json::text(self.url.as_str())));
        assert(members_view(members@) =~= seq![
            ("id"@, JsonValue::Text(self.id@)),
            ("sessionID"@, JsonValue::Text(self.session_id@)),
            ("messageID"@, JsonValue::Text(self.message_id@)),
            ("type"@, JsonValue::Text(self.attachment_type@)),
            ("mime"@, JsonValue::Text(self.mime@)),
            ("url"@, JsonValue::Text(self.url@)),
        ]);
        Json::object(members)
    }
}

/// What a tool call returns.
#[derive(Debug)]
pub struct ToolResult {
    /// A short line that says what the tool did.
    pub title: String,
    /// The text that the tool produced.
    pub output: String,
    /// What else the tool has to say about the call.
    pub metadata: Json,
    /// The files that the tool hands back, where there are any.
    pub attachments: Option<Vec<FileAttachment>>,
}

/// The JSON forms of the attachments `list`.
pub open spec fn attachments_json(list: Seq<FileAttachment>) -> Seq<JsonValue> {
    list.map_values(|a: FileAttachment| a.json())
}

impl ToolResult {
    /// The JSON form of the result. The attachments are named only where
    /// there are any.
    pub open spec fn json(&self) -> JsonValue {
        match self.attachments {
            Some(list) => JsonValue::Object(
                seq![
                    ("title"@, JsonValue::Text(self.title@)),
                    ("output"@, JsonValue::Text(self.output@)),
                    ("metadata"@, self.metadata@),
                    ("attachments"@, JsonValue::Array(attachments_json(list@))),
                ],
            ),
            None => JsonValue::Object(
                seq![
                    ("title"@, JsonValue::Text(self.title@)),
                    ("output"@, JsonValue::Text(self.output@)),
                    ("metadata"@, self.metadata@),
                ],
            ),
        }
    }

    /// Writes the result as JSON.
    pub fn into_json(self) -> (j: Json)
        ensures
            j@ == self.json(),
    {
        let ghost metadata = self.metadata@;
        let mut members: Vec<Member> = Vec::new();
        members.push(member("title", Json::text(self.title.as_str())));
        members.push(member("output", Json::text(self.output.as_str())));
        members.push(member("metadata", self.metadata));
        match &self.attachments {
            Some(list) => {
                let mut items: Vec<Json> = Vec::new();
                let mut i: usize = 0;
                while i < list.len()
                    invariant
                        i <= list.len(),
                        items_view(items@) == attachments_json(list@).take(i as int),
                    decreases list.len() - i,
                {
                    let ghost before = items_view(items@);
                    let item = list[i].to_json();
                    items.push(item);
                    assert(items_view(items@) =~= before.push(list@[i as int].json()));
                    assert(before.push(list@[i as int].json()) =~= attachments_json(list@).take(
                        i + 1,
                    ));
                    i += 1;
                }
                assert(attachments_json(list@).take(list@.len() as int) =~= attachments_json(
                    list@,
                ));
                members.push(member("attachments", Json::array(items)));
                assert(members_view(members@) =~= seq![
                    ("title"@, JsonValue::Text(self.title@)),
                    ("output"@, JsonValue::Text(self.output@)),
                    ("metadata"@, metadata),
                    ("attachments"@, JsonValue::Array(attachments_json(list@))),
                ]);
            },
            None => {
                assert(members_view(members@) =~= seq![
                    ("title"@, JsonValue::Text(self.title@)),
                    ("output"@, JsonValue::Text(self.output@)),
                    ("metadata"@, metadata),
                ]);
            },
        }
        Json::object(members)
    }
}

/// One parameter in the description of a tool's parameters: its name, with
/// its type and what it is for.
pub open spec fn property(name: Seq<char>, kind: Seq<char>, description: Seq<char>) -> (
    Seq<char>,
    JsonValue,
) {
    (
        name,
        JsonValue::Object(
            seq![
                ("type"@, JsonValue::Text(kind)),
                ("description"@, JsonValue::Text(description)),
            ],
        ),
    )
}

/// One parameter whose values are the texts `choices`.
pub open spec fn choice(
    name: Seq<char>,
    kind: Seq<char>,
    choices: Seq<Seq<char>>,
    description: Seq<char>,
) -> (Seq<char>, JsonValue) {
    (
        name,
        JsonValue::Object(
            seq![
                ("type"@, JsonValue::Text(kind)),
                ("enum"@, JsonValue::texts(choices)),
                ("description"@, JsonValue::Text(description)),
            ],
        ),
    )
}

/// The description of a tool's parameters as a JSON Schema: an object with
/// the given properties, of which those named in `required` must be there.
/// Where none must be, the schema does not speak of it.
pub open spec fn schema(properties: Seq<(Seq<char>, JsonValue)>, required: Seq<Seq<char>>) -> JsonValue {
    if required.len() == 0 {
        JsonValue::Object(
            seq![
                ("type"@, JsonValue::Text("object"@)),
                ("properties"@, JsonValue::Object(properties)),
            ],
        )
    } else {
        JsonValue::Object(
            seq![
                ("type"@, JsonValue::Text("object"@)),
                ("properties"@, JsonValue::Object(properties)),
                ("required"@, JsonValue::texts(required)),
            ],
        )
    }
}

/// One parameter in the description of a tool's parameters.
pub fn make_property(name: &str, kind: &str, description: &str) -> (m: Member)
    ensures
        (m.name@, member_value(m)) == property(name@, kind@, description@),
{
    let mut fields: Vec<Member> = Vec::new();
    fields.push(member("type", Json::text(kind)));
    fields.push(member("description", Json::text(description)));
    assert(members_view(fields@) =~= seq![
        ("type"@, JsonValue::Text(kind@)),
        ("description"@, JsonValue::Text(description@)),
    ]);
    member(name, Json::object(fields))
}

/// One parameter whose values are the texts `choices`.
pub fn make_choice(name: &str, kind: &str, choices: &Vec<String>, description: &str) -> (m: Member)
    ensures
        (m.name@, member_value(m)) == choice(name@, kind@, strings_view(choices@), description@),
{
    let mut fields: Vec<Member> = Vec::new();
    fields.push(member("type", Json::text(kind)));
    fields.push(member("enum", Json::texts(choices)));
    fields.push(member("description", Json::text(description)));
    assert(members_view(fields@) =~= seq![
        ("type"@, JsonValue::Text(kind@)),
        ("enum"@, JsonValue::texts(strings_view(choices@))),
        ("description"@, JsonValue::Text(description@)),
    ]);
    member(name, Json::object(fields))
}

/// The description of a tool's parameters as a JSON Schema.
pub fn make_schema(properties: Vec<Member>, required: &Vec<String>) -> (j: Json)
    ensures
        j@ == schema(members_view(properties@), strings_view(required@)),
{
    let mut top: Vec<Member> = Vec::new();
    top.push(member("type", Json::text("object")));
    top.push(member("properties", Json::object(properties)));
    assert(strings_view(required@).len() == required@.len());
    if required.len() > 0 {
        top.push(member("required", Json::texts(required)));
        assert(members_view(top@) =~= seq![
            ("type"@, JsonValue::Text("object"@)),
            ("properties"@, JsonValue::Object(members_view(properties@))),
            ("required"@, JsonValue::texts(strings_view(required@))),
        ]);
    } else {
        assert(members_view(top@) =~= seq![
            ("type"@, JsonValue::Text("object"@)),
            ("properties"@, JsonValue::Object(members_view(properties@))),
        ]);
    }
    Json::object(top)
}

/// The strings with the texts of `names`.
pub fn strings(names: &Vec<&'static str>) -> (r: Vec<String>)
    ensures
        r.len() == names.len(),
        forall|i: int| 0 <= i < names.len() ==> (#[trigger] r@[i])@ == names@[i]@,
{
    let mut r: Vec<String> = Vec::new();
    let mut i: usize = 0;
    while i < names.len()
        invariant
            i <= names.len(),
            r.len() == i,
            forall|k: int| 0 <= k < i ==> (#[trigger] r@[k])@ == names@[k]@,
        decreases names.len() - i,
    {
        r.push(names[i].to_owned());
        i += 1;
    }
    r
}

/// A tool: a named capability with a description and a description of its
/// parameters.
#[derive(Debug, Clone, Copy, PartialEq, Eq, Structural)]
pub enum Tool {
    Read,
    Write,
    Edit,
    List,
    Glob,
    Grep,
    Bash,
}

impl Tool {
    /// The name by which the tool is called.
    pub open spec fn name(self) -> Seq<char> {
        match self {
            Tool::Read => "read"@,
            Tool::Write => "write"@,
            Tool::Edit => "edit"@,
            Tool::List => "list"@,
            Tool::Glob => "glob"@,
            Tool::Grep => "grep"@,
            Tool::Bash => "bash"@,
        }
    }

    /// What the tool says of itself.
    pub open spec fn describes(self) -> Seq<char> {
        match self {
            Tool::Read => read::DESCRIPTION@,
            Tool::Write => write::DESCRIPTION@,
            Tool::Edit => edit::DESCRIPTION@,
            Tool::List => list::DESCRIPTION@,
            Tool::Glob => glob::DESCRIPTION@,
            Tool::Grep => grep::DESCRIPTION@,
            Tool::Bash => bash::DESCRIPTION@,
        }
    }

    /// The description of the tool's parameters.
    pub open spec fn parameters(self) -> JsonValue {
        match self {
            Tool::Read => read::ReadTool::parameters(),
            Tool::Write => write::WriteTool::parameters(),
            Tool::Edit => edit::EditTool::parameters(),
            Tool::List => list::ListTool::parameters(),
            Tool::Glob => glob::GlobTool::parameters(),
            Tool::Grep => grep::GrepTool::parameters(),
            Tool::Bash => bash::BashTool::parameters(),
        }
    }

    /// The name by which the tool is called.
    pub fn id(&self) -> (s: &'static str)
        ensures
            s@ == self.name(),
    {
        match self {
            Tool::Read => read::ReadTool.id(),
            Tool::Write => write::WriteTool.id(),
            Tool::Edit => edit::EditTool.id(),
            Tool::List => list::ListTool.id(),
            Tool::Glob => glob::GlobTool.id(),
            Tool::Grep => grep::GrepTool.id(),
            Tool::Bash => bash::BashTool.id(),
        }
    }

    /// What the tool says of itself.
    pub fn description(&self) -> (s: &'static str)
        ensures
            s@ == self.describes(),
    {
        match self {
            Tool::Read => read::ReadTool.description(),
            Tool::Write => write::WriteTool.description(),
            Tool::Edit => edit::EditTool.description(),
            Tool::List => list::ListTool.description(),
            Tool::Glob => glob::GlobTool.description(),
            Tool::Grep => grep::GrepTool.description(),
            Tool::Bash => bash::BashTool.description(),
        }
    }

    /// The description of the tool's parameters as a JSON Schema.
    pub fn parameters_schema(&self) -> (j: Json)
        ensures
            j@ == self.parameters(),
    {
        match self {
            Tool::Read => read::ReadTool.parameters_schema(),
            Tool::Write => write::WriteTool.parameters_schema(),
            Tool::Edit => edit::EditTool.parameters_schema(),
            Tool::List => list::ListTool.parameters_schema(),
            Tool::Glob => glob::GlobTool.parameters_schema(),
            Tool::Grep => grep::GrepTool.parameters_schema(),
            Tool::Bash => bash::BashTool.parameters_schema(),
        }
    }
}

/// The names of any two tools differ.
pub proof fn lemma_names_differ(a: Tool, b: Tool)
    ensures
        a.name() == b.name() ==> a == b,
{
    reveal_strlit("read");
    reveal_strlit("write");
    reveal_strlit("edit");
    reveal_strlit("list");
    reveal_strlit("glob");
    reveal_strlit("grep");
    reveal_strlit("bash");
    if a != b && a.name() == b.name() {
        assert(a.name().len() == b.name().len());
        assert(a.name()[0] == b.name()[0]);
        assert(a.name()[2] == b.name()[2]);
    }
}

/// The tools that there are, in the order in which they are listed. It is
/// made once and not changed afterwards.
pub struct ToolRegistry {
    tools: Vec<Tool>,
}

impl View for ToolRegistry {
    type V = Seq<Tool>;

    closed spec fn view(&self) -> Seq<Tool> {
        self.tools@
    }
}

/// The built-in tools, in the order of the registry.
pub open spec fn built_in() -> Seq<Tool> {
    seq![Tool::Read, Tool::Write, Tool::Edit, Tool::List, Tool::Glob, Tool::Grep, Tool::Bash]
}

impl ToolRegistry {
    /// Whether no two tools of the registry have the same name.
    pub open spec fn names_unique(&self) -> bool {
        forall|i: int, j: int|
            0 <= i < j < self@.len() ==> (#[trigger] self@[i]).name() != (
            #[trigger] self@[j]).name()
    }

    /// The position of the first tool called `id`, or the number of tools
    /// where there is none.
    pub open spec fn position(tools: Seq<Tool>, id: Seq<char>) -> int
        decreases tools.len(),
    {
        if tools.len() == 0 || tools[0].name() == id {
            0
        } else {
            1 + Self::position(tools.drop_first(), id)
        }
    }

    /// The tool called `id`, where there is one.
    pub open spec fn lookup(&self, id: Seq<char>) -> Option<Tool> {
        let at = Self::position(self@, id);
        if at < self@.len() {
            Some(self@[at])
        } else {
            None
        }
    }

    /// The registry of the built-in tools.
    pub fn new() -> (r: ToolRegistry)
        ensures
            r@ == built_in(),
            r.names_unique(),
    {
        let mut tools: Vec<Tool> = Vec::new();
        tools.push(Tool::Read);
        tools.push(Tool::Write);
        tools.push(Tool::Edit);
        tools.push(Tool::List);
        tools.push(Tool::Glob);
        tools.push(Tool::Grep);
        tools.push(Tool::Bash);
        let r = ToolRegistry { tools };
        assert(r@ =~= built_in());
        assert forall|i: int, j: int| 0 <= i < j < r@.len() implies (#[trigger] r@[i]).name() != (
        #[trigger] r@[j]).name() by {
            lemma_names_differ(r@[i], r@[j]);
        }
        r
    }

    /// The tool called `id`; nothing where no tool has that name.
    pub fn get(&self, id: &str) -> (r: Option<Tool>)
        ensures
            r == self.lookup(id@),
            r matches Some(tool) ==> tool.name() == id@ && self@.contains(tool),
            r is None ==> forall|i: int| 0 <= i < self@.len() ==> self@[i].name() != id@,
    {
        let wanted = to_chars(id);
        let mut i: usize = 0;
        assert(self@.skip(0) =~= self@);
        while i < self.tools.len()
            invariant
                i <= self.tools.len(),
                wanted@ == id@,
                Self::position(self@, id@) == i + Self::position(self@.skip(i as int), id@),
                forall|k: int| 0 <= k < i ==> self@[k].name() != id@,
            decreases self.tools.len() - i,
        {
            let here = to_chars(self.tools[i].id());
            assert(self@.skip(i as int)[0] == self@[i as int]);
            if same(&here, &wanted) {
                return Some(self.tools[i]);
            }
            assert(self@.skip(i as int).drop_first() =~= self@.skip(i + 1));
            i += 1;
        }
        None
    }

    /// All tools, in the order of the registry.
    pub fn all(&self) -> (r: &Vec<Tool>)
        ensures
            r@ == self@,
    {
        &self.tools
    }

    /// The name and the description of every tool, in the order of the
    /// registry.
    pub fn descriptions(&self) -> (r: Vec<(&'static str, &'static str)>)
        ensures
            r@.len() == self@.len(),
            forall|i: int|
                0 <= i < self@.len() ==> (#[trigger] r@[i]).0@ == self@[i].name() && r@[i].1@
                    == self@[i].describes(),
    {
        let mut r: Vec<(&'static str, &'static str)> = Vec::new();
        let mut i: usize = 0;
        while i < self.tools.len()
            invariant
                i <= self.tools.len(),
                r@.len() == i,
                forall|k: int|
                    0 <= k < i ==> (#[trigger] r@[k]).0@ == self@[k].name() && r@[k].1@
                        == self@[k].describes(),
            decreases self.tools.len() - i,
        {
            r.push((self.tools[i].id(), self.tools[i].description()));
            i += 1;
        }
        r
    }
}

impl Default for ToolRegistry {
    fn default() -> (r: ToolRegistry)
        ensures
            r@ == built_in(),
    {
        ToolRegistry::new()
    }
}

} // verus!
