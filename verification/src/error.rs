//! The closed set of errors that the tools report.

use crate::json::{member, members_view, Json, JsonValue, Member};
use crate::text::{combine, join, join_strings, opt_text, strings_view};
use vstd::prelude::*;

verus! {

/// Every failure that a tool call can end in. Each kind carries its own
/// fields; the kinds that wrap a fault of the surrounding system carry its
/// message.
#[derive(Debug)]
pub enum AgentError {
    FileNotFound { path: String, suggestions: Vec<String> },
    BinaryFile { path: String },
    InvalidArguments { tool: String, message: String },
    ToolExecution { tool: String, message: String },
    ProviderInit { provider: String, message: String },
    Authentication { message: String },
    Session { session_id: Option<String>, message: String },
    Config { message: String },
    Io(String),
    Json(String),
    Http(String),
    Unknown(String),
}

impl AgentError {
    /// Whether this is a failed tool execution of `tool` with the text `message`.
    pub open spec fn is_tool_execution(&self, tool: Seq<char>, message: Seq<char>) -> bool {
        match self {
            AgentError::ToolExecution { tool: t, message: m } => t@ == tool && m@ == message,
            _ => false,
        }
    }

    /// Whether this is a rejection of the arguments given to `tool` with the
    /// text `message`.
    pub open spec fn is_invalid_arguments(&self, tool: Seq<char>, message: Seq<char>) -> bool {
        match self {
            AgentError::InvalidArguments { tool: t, message: m } => t@ == tool && m@ == message,
            _ => false,
        }
    }

    /// A missing file, with the files that may have been meant.
    pub fn file_not_found(path: &str, suggestions: Vec<String>) -> (e: AgentError)
        ensures
            e matches AgentError::FileNotFound { path: p, suggestions: s } && p@ == path@ && s
                == suggestions,
    {
        AgentError::FileNotFound { path: path.to_owned(), suggestions }
    }

    /// A rejection of the arguments given to `tool`.
    pub fn invalid_arguments(tool: &str, message: &str) -> (e: AgentError)
        ensures
            e.is_invalid_arguments(tool@, message@),
    {
        AgentError::InvalidArguments { tool: tool.to_owned(), message: message.to_owned() }
    }

    /// A failure of `tool` while it worked.
    pub fn tool_execution(tool: &str, message: &str) -> (e: AgentError)
        ensures
            e.is_tool_execution(tool@, message@),
    {
        AgentError::ToolExecution { tool: tool.to_owned(), message: message.to_owned() }
    }
}

/// The object that an error is written as: its kind under `name`, and its
/// fields, with the message, under `data`.
pub open spec fn named(name: Seq<char>, data: Seq<(Seq<char>, JsonValue)>) -> JsonValue {
    JsonValue::Object(seq![("name"@, JsonValue::Text(name)), ("data"@, JsonValue::Object(data))])
}

/// The message of a missing file: its path, and the suggestions, one to a
/// line, where there are any.
pub open spec fn not_found_message(path: Seq<char>, suggestions: Seq<Seq<char>>) -> Seq<char> {
    if suggestions.len() == 0 {
        "File not found: "@ + path
    } else {
        "File not found: "@ + path + "\n\nDid you mean one of these?\n"@ + join(
            suggestions,
            "\n"@,
        )
    }
}

fn named_object(name: &str, data: Vec<Member>) -> (j: Json)
    ensures
        j@ == named(name@, members_view(data@)),
{
    let mut top: Vec<Member> = Vec::new();
    top.push(member("name", Json::text(name)));
    top.push(member("data", Json::object(data)));
    let j = Json::object(top);
    assert(members_view(top@) =~= seq![
        ("name"@, JsonValue::Text(name@)),
        ("data"@, JsonValue::Object(members_view(data@))),
    ]);
    j
}

/// Two members, each a text.
fn two_texts(first: &str, a: &str, second: &str, b: &str) -> (data: Vec<Member>)
    ensures
        members_view(data@) == seq![
            (first@, JsonValue::Text(a@)),
            (second@, JsonValue::Text(b@)),
        ],
{
    let mut data: Vec<Member> = Vec::new();
    data.push(member(first, Json::text(a)));
    data.push(member(second, Json::text(b)));
    assert(members_view(data@) =~= seq![
        (first@, JsonValue::Text(a@)),
        (second@, JsonValue::Text(b@)),
    ]);
    data
}

/// One member, a text.
fn one_text(name: &str, a: &str) -> (data: Vec<Member>)
    ensures
        members_view(data@) == seq![(name@, JsonValue::Text(a@))],
{
    let mut data: Vec<Member> = Vec::new();
    data.push(member(name, Json::text(a)));
    assert(members_view(data@) =~= seq![(name@, JsonValue::Text(a@))]);
    data
}

impl AgentError {
    /// The JSON form of this error, by which a caller tells the kinds apart
    /// without reading the message.
    pub open spec fn json(&self) -> JsonValue {
        match self {
            AgentError::FileNotFound { path, suggestions } => named(
                "FileNotFound"@,
                seq![
                    ("path"@, JsonValue::Text(path@)),
                    ("suggestions"@, JsonValue::texts(strings_view(suggestions@))),
                    (
                        "message"@,
                        JsonValue::Text(not_found_message(path@, strings_view(suggestions@))),
                    ),
                ],
            ),
            AgentError::BinaryFile { path } => named(
                "BinaryFile"@,
                seq![
                    ("path"@, JsonValue::Text(path@)),
                    ("message"@, JsonValue::Text("Cannot read binary file: "@ + path@)),
                ],
            ),
            AgentError::InvalidArguments { tool, message } => named(
                "InvalidArguments"@,
                seq![("tool"@, JsonValue::Text(tool@)), ("message"@, JsonValue::Text(message@))],
            ),
            AgentError::ToolExecution { tool, message } => named(
                "ToolExecution"@,
                seq![("tool"@, JsonValue::Text(tool@)), ("message"@, JsonValue::Text(message@))],
            ),
            AgentError::ProviderInit { provider, message } => named(
                "ProviderInitError"@,
                seq![
                    ("provider"@, JsonValue::Text(provider@)),
                    ("message"@, JsonValue::Text(message@)),
                ],
            ),
            AgentError::Authentication { message } => named(
                "AuthenticationError"@,
                seq![("message"@, JsonValue::Text(message@))],
            ),
            AgentError::Session { session_id, message } => named(
                "SessionError"@,
                seq![
                    ("sessionID"@, JsonValue::optional_text(opt_text(*session_id))),
                    ("message"@, JsonValue::Text(message@)),
                ],
            ),
            AgentError::Config { message } => named(
                "ConfigError"@,
                seq![("message"@, JsonValue::Text(message@))],
            ),
            AgentError::Io(message) => named(
                "IOError"@,
                seq![("message"@, JsonValue::Text(message@))],
            ),
            AgentError::Json(message) => named(
                "JSONError"@,
                seq![("message"@, JsonValue::Text(message@))],
            ),
            AgentError::Http(message) => named(
                "HTTPError"@,
                seq![("message"@, JsonValue::Text(message@))],
            ),
            AgentError::Unknown(message) => named(
                "UnknownError"@,
                seq![("message"@, JsonValue::Text(message@))],
            ),
        }
    }

    /// The line that tells a reader what went wrong.
    pub open spec fn display(&self) -> Seq<char> {
        match self {
            AgentError::FileNotFound { path, .. } => "File not found: "@ + path@,
            AgentError::BinaryFile { path } => "Cannot read binary file: "@ + path@,
            AgentError::InvalidArguments { tool, message } => "Invalid arguments for tool '"@
                + tool@ + "': "@ + message@,
            AgentError::ToolExecution { message, .. } => "Tool execution failed: "@ + message@,
            AgentError::ProviderInit { provider, .. } => "Provider initialization failed: "@
                + provider@,
            AgentError::Authentication { message } => "Authentication error: "@ + message@,
            AgentError::Session { message, .. } => "Session error: "@ + message@,
            AgentError::Config { message } => "Configuration error: "@ + message@,
            AgentError::Io(message) => "IO error: "@ + message@,
            AgentError::Json(message) => "JSON error: "@ + message@,
            AgentError::Http(message) => "HTTP error: "@ + message@,
            AgentError::Unknown(message) => "Unknown error: "@ + message@,
        }
    }

    /// Writes the error as a line for a reader.
    pub fn to_string(&self) -> (r: String)
        ensures
            r@ == self.display(),
    {
        match self {
            AgentError::FileNotFound { path, .. } => combine("File not found: ", path.as_str()),
            AgentError::BinaryFile { path } => combine("Cannot read binary file: ", path.as_str()),
            AgentError::InvalidArguments { tool, message } => {
                let mut r = combine("Invalid arguments for tool '", tool.as_str());
                r = combine(r.as_str(), "': ");
                combine(r.as_str(), message.as_str())
            },
            AgentError::ToolExecution { message, .. } => combine(
                "Tool execution failed: ",
                message.as_str(),
            ),
            AgentError::ProviderInit { provider, .. } => combine(
                "Provider initialization failed: ",
                provider.as_str(),
            ),
            AgentError::Authentication { message } => combine(
                "Authentication error: ",
                message.as_str(),
            ),
            AgentError::Session { message, .. } => combine("Session error: ", message.as_str()),
            AgentError::Config { message } => combine("Configuration error: ", message.as_str()),
            AgentError::Io(message) => combine("IO error: ", message.as_str()),
            AgentError::Json(message) => combine("JSON error: ", message.as_str()),
            AgentError::Http(message) => combine("HTTP error: ", message.as_str()),
            AgentError::Unknown(message) => combine("Unknown error: ", message.as_str()),
        }
    }

    /// Writes the error as JSON.
    pub fn to_json(&self) -> (j: Json)
        ensures
            j@ == self.json(),
    {
        match self {
            AgentError::FileNotFound { path, suggestions } => {
                let mut message = combine("File not found: ", path.as_str());
                if suggestions.len() > 0 {
                    message = combine(message.as_str(), "\n\nDid you mean one of these?\n");
                    let list = join_strings(suggestions, "\n");
                    message = combine(message.as_str(), list.as_str());
                }
                assert(strings_view(suggestions@).len() == suggestions@.len());
                let mut data: Vec<Member> = Vec::new();
                data.push(member("path", Json::text(path.as_str())));
                data.push(member("suggestions", Json::texts(suggestions)));
                data.push(member("message", Json::text(message.as_str())));
                assert(members_view(data@) =~= seq![
                    ("path"@, JsonValue::Text(path@)),
                    ("suggestions"@, JsonValue::texts(strings_view(suggestions@))),
                    (
                        "message"@,
                        JsonValue::Text(not_found_message(path@, strings_view(suggestions@))),
                    ),
                ]);
                named_object("FileNotFound", data)
            },
            AgentError::BinaryFile { path } => {
                let message = combine("Cannot read binary file: ", path.as_str());
                named_object(
                    "BinaryFile",
                    two_texts("path", path.as_str(), "message", message.as_str()),
                )
            },
            AgentError::InvalidArguments { tool, message } => named_object(
                "InvalidArguments",
                two_texts("tool", tool.as_str(), "message", message.as_str()),
            ),
            AgentError::ToolExecution { tool, message } => named_object(
                "ToolExecution",
                two_texts("tool", tool.as_str(), "message", message.as_str()),
            ),
            AgentError::ProviderInit { provider, message } => named_object(
                "ProviderInitError",
                two_texts("provider", provider.as_str(), "message", message.as_str()),
            ),
            AgentError::Authentication { message } => named_object(
                "AuthenticationError",
                one_text("message", message.as_str()),
            ),
            AgentError::Session { session_id, message } => {
                let mut data: Vec<Member> = Vec::new();
                data.push(member("sessionID", Json::optional_text(session_id)));
                data.push(member("message", Json::text(message.as_str())));
                assert(members_view(data@) =~= seq![
                    ("sessionID"@, JsonValue::optional_text(opt_text(*session_id))),
                    ("message"@, JsonValue::Text(message@)),
                ]);
                named_object("SessionError", data)
            },
            AgentError::Config { message } => named_object(
                "ConfigError",
                one_text("message", message.as_str()),
            ),
            AgentError::Io(message) => named_object("IOError", one_text("message", message.as_str())),
            AgentError::Json(message) => named_object(
                "JSONError",
                one_text("message", message.as_str()),
            ),
            AgentError::Http(message) => named_object(
                "HTTPError",
                one_text("message", message.as_str()),
            ),
            AgentError::Unknown(message) => named_object(
                "UnknownError",
                one_text("message", message.as_str()),
            ),
        }
    }
}

} // verus!
