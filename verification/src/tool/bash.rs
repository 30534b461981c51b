//! The bash tool: what to make of a command that has run, failed to start
//! or run out of time.

use crate::error::AgentError;
use crate::json::{member, members_view, Json, JsonValue, Member};
use crate::text::{
    append, decimal, decimal_text, from_chars, join, join_range, opt_text, signed_decimal,
    signed_decimal_text, slice, split_words, strings_view, texts, to_chars, words,
};
use crate::tool::{make_property, make_schema, property, schema, strings, ToolResult};
use vstd::prelude::*;

verus! {

/// What the bash tool says of itself.
pub const DESCRIPTION: &'static str = "Executes a given bash command in a persistent shell session.\n\nUsage:\n- Use for terminal operations like git, npm, docker, etc.\n- Commands have a default timeout of 2 minutes (max 10 minutes)\n- Output exceeding 30000 characters will be truncated\n- Always quote file paths containing spaces";

/// The time that a command may take where none is asked for, in
/// milliseconds.
pub const DEFAULT_TIMEOUT_MS: u64 = 120000;

/// The longest time that a command may take, in milliseconds.
pub const MAX_TIMEOUT_MS: u64 = 600000;

/// The number of characters of output beyond which the rest is cut off.
pub const MAX_OUTPUT_LENGTH: usize = 30000;

/// What the bash tool is asked to do.
#[derive(Debug)]
pub struct BashParams {
    /// The command to run.
    pub command: String,
    /// The time that the command may take, in milliseconds.
    pub timeout: Option<u64>,
    /// What the command is for.
    pub description: Option<String>,
}

/// The bash tool.
pub struct BashTool;

/// How the run of a command ended.
#[derive(Debug)]
pub enum BashOutcome {
    /// The command ran to its end.
    Completed { stdout: String, stderr: String, exit_code: i32 },
    /// The command could not be run; the text says why.
    Failed(String),
    /// The command was stopped when its time was up.
    TimedOut,
}

/// The time that a command gets: what was asked for, or the default, and
/// never more than the maximum.
pub open spec fn granted_timeout(asked: Option<u64>) -> int {
    let wanted = match asked {
        Some(t) => t as int,
        None => 120000,
    };
    if wanted <= 600000 {
        wanted
    } else {
        600000
    }
}

/// The title of a call: the description where one is given, else the
/// first three words of the command.
pub open spec fn call_title(command: Seq<char>, description: Option<Seq<char>>) -> Seq<char> {
    match description {
        Some(d) => d,
        None => {
            let w = words(command);
            join(
                if w.len() <= 3 {
                    w
                } else {
                    w.take(3)
                },
                " "@,
            )
        },
    }
}

/// What a command has written: its output, then what it wrote as errors,
/// with a line between them where both are there.
pub open spec fn combined_output(stdout: Seq<char>, stderr: Seq<char>) -> Seq<char> {
    if stderr.len() == 0 {
        stdout
    } else if stdout.len() == 0 {
        stderr
    } else {
        stdout + "\n--- stderr ---\n"@ + stderr
    }
}

/// `output`, cut off after 30000 characters, with a note that says so.
pub open spec fn capped_output(output: Seq<char>) -> Seq<char> {
    if output.len() > 30000 {
        output.take(30000) + "\n... (output truncated)"@
    } else {
        output
    }
}

/// `output`, with a note of the exit code where that is not zero.
pub open spec fn noted_output(output: Seq<char>, exit_code: int) -> Seq<char> {
    if exit_code != 0 {
        output + "\n(exit code: "@ + signed_decimal(exit_code) + ")"@
    } else {
        output
    }
}

/// The text that the call returns for a command that ran to its end.
pub open spec fn reported_output(stdout: Seq<char>, stderr: Seq<char>, exit_code: int) -> Seq<char> {
    noted_output(capped_output(combined_output(stdout, stderr)), exit_code)
}

/// What the bash tool tells beside the text: the exit code and the command.
pub open spec fn run_metadata(exit_code: int, command: Seq<char>) -> JsonValue {
    JsonValue::Object(
        seq![("exitCode"@, JsonValue::Number(exit_code)), ("command"@, JsonValue::Text(command))],
    )
}

/// The message for a command whose time was up.
pub open spec fn timeout_message(timeout_ms: int) -> Seq<char> {
    "Command timed out after "@ + decimal(timeout_ms as nat) + "ms"@
}

/// Writes the text that the call returns for a command that ran to its end.
pub fn report_output(stdout: &str, stderr: &str, exit_code: i32) -> (r: String)
    ensures
        r@ == reported_output(stdout@, stderr@, exit_code as int),
{
    let out = to_chars(stdout);
    let err = to_chars(stderr);
    let mut all: Vec<char> = Vec::new();
    if out.len() > 0 {
        append(&mut all, &out);
    }
    if err.len() > 0 {
        if all.len() > 0 {
            append(&mut all, &to_chars("\n--- stderr ---\n"));
        }
        append(&mut all, &err);
    }
    assert(all@ =~= combined_output(stdout@, stderr@));
    if all.len() > MAX_OUTPUT_LENGTH {
        let mut cut = slice(&all, 0, MAX_OUTPUT_LENGTH);
        append(&mut cut, &to_chars("\n... (output truncated)"));
        assert(cut@ =~= capped_output(all@));
        all = cut;
    }
    if exit_code != 0 {
        append(&mut all, &to_chars("\n(exit code: "));
        append(&mut all, &signed_decimal_text(exit_code as i64));
        append(&mut all, &to_chars(")"));
    }
    from_chars(&all)
}

impl BashTool {
    /// The name by which the tool is called.
    pub fn id(&self) -> (s: &'static str)
        ensures
            s@ == "bash"@,
    {
        "bash"
    }

    /// What the tool says of itself.
    pub fn description(&self) -> (s: &'static str)
        ensures
            s@ == DESCRIPTION@,
    {
        DESCRIPTION
    }

    /// The parameters of the bash tool.
    pub open spec fn parameters() -> JsonValue {
        schema(
            seq![
                property("command"@, "string"@, "The command to execute"@),
                property(
                    "timeout"@,
                    "number"@,
                    "Optional timeout in milliseconds (max 600000)"@,
                ),
                property("description"@, "string"@, "Description of what this command does"@),
            ],
            seq!["command"@],
        )
    }

    /// The description of the tool's parameters as a JSON Schema.
    pub fn parameters_schema(&self) -> (j: Json)
        ensures
            j@ == Self::parameters(),
    {
        let mut properties: Vec<Member> = Vec::new();
        properties.push(make_property("command", "string", "The command to execute"));
        properties.push(
            make_property("timeout", "number", "Optional timeout in milliseconds (max 600000)"),
        );
        properties.push(
            make_property("description", "string", "Description of what this command does"),
        );
        let required = strings(&vec!["command"]);
        assert(members_view(properties@) =~= seq![
            property("command"@, "string"@, "The command to execute"@),
            property("timeout"@, "number"@, "Optional timeout in milliseconds (max 600000)"@),
            property("description"@, "string"@, "Description of what this command does"@),
        ]);
        assert(strings_view(required@) =~= seq!["command"@]);
        make_schema(properties, &required)
    }

    /// The time that the command gets, in milliseconds.
    pub fn timeout_ms(&self, params: &BashParams) -> (t: u64)
        ensures
            t == granted_timeout(params.timeout),
    {
        let wanted: u64 = match params.timeout {
            Some(t) => t,
            None => DEFAULT_TIMEOUT_MS,
        };
        if wanted <= MAX_TIMEOUT_MS {
            wanted
        } else {
            MAX_TIMEOUT_MS
        }
    }

    /// The title of the call.
    pub fn title(&self, params: &BashParams) -> (r: String)
        ensures
            r@ == call_title(params.command@, opt_text(params.description)),
    {
        match &params.description {
            Some(d) => d.clone(),
            None => {
                let w = split_words(&to_chars(params.command.as_str()));
                let count: usize = if w.len() <= 3 {
                    w.len()
                } else {
                    3
                };
                assert(texts(w@).subrange(0, count as int) =~= if texts(w@).len() <= 3 {
                    texts(w@)
                } else {
                    texts(w@).take(3)
                });
                from_chars(&join_range(&w, 0, count, &to_chars(" ")))
            },
        }
    }

    /// What the call returns, once the run of the command has ended.
    ///
    /// A command that ran to its end gives its output, whatever its exit
    /// code. One that could not be run, or whose time was up, makes the call
    /// fail.
    pub fn finish(&self, params: &BashParams, outcome: &BashOutcome) -> (r: Result<
        ToolResult,
        AgentError,
    >)
        ensures
            match outcome {
                BashOutcome::Completed { stdout, stderr, exit_code } => r matches Ok(result)
                    && result.title@ == call_title(
                    params.command@,
                    opt_text(params.description),
                ) && result.output@ == reported_output(stdout@, stderr@, *exit_code as int)
                    && result.metadata@ == run_metadata(*exit_code as int, params.command@)
                    && result.attachments is None,
                BashOutcome::Failed(message) => r matches Err(e) && e.is_tool_execution(
                    "bash"@,
                    message@,
                ),
                BashOutcome::TimedOut => r matches Err(e) && e.is_tool_execution(
                    "bash"@,
                    timeout_message(granted_timeout(params.timeout)),
                ),
            },
    {
        match outcome {
            BashOutcome::Completed { stdout, stderr, exit_code } => {
                let mut top: Vec<Member> = Vec::new();
                top.push(member("exitCode", Json::number(*exit_code as i128)));
                top.push(member("command", Json::text(params.command.as_str())));
                assert(members_view(top@) =~= seq![
                    ("exitCode"@, JsonValue::Number(*exit_code as int)),
                    ("command"@, JsonValue::Text(params.command@)),
                ]);
                Ok(
                    ToolResult {
                        title: self.title(params),
                        output: report_output(stdout.as_str(), stderr.as_str(), *exit_code),
                        metadata: Json::object(top),
                        attachments: None,
                    },
                )
            },
            BashOutcome::Failed(message) => Err(
                AgentError::tool_execution("bash", message.as_str()),
            ),
            BashOutcome::TimedOut => {
                let mut message = to_chars("Command timed out after ");
                append(&mut message, &decimal_text(self.timeout_ms(params) as u128));
                append(&mut message, &to_chars("ms"));
                Err(AgentError::tool_execution("bash", from_chars(&message).as_str()))
            },
        }
    }
}

} // verus!
