//! What every tool call is given: who asked, and where it works.

use crate::util::path::{
    is_absolute, join, path_is_absolute, path_join, path_strip_prefix, strip_prefix,
};
use vstd::prelude::*;

verus! {

/// The environment of one tool call. It is made once for a call and does
/// not change while the call lasts.
#[derive(Debug, Clone)]
pub struct ToolContext {
    /// The session that the call belongs to.
    pub session_id: String,
    /// The message that asked for the call.
    pub message_id: String,
    /// The name of the agent.
    pub agent: String,
    /// The directory in which relative paths are looked up.
    pub working_directory: String,
    /// The identifier of the call, where it has one.
    pub call_id: Option<String>,
    /// The provider of the model in use, where it is known.
    pub provider_id: Option<String>,
    /// The model in use, where it is known.
    pub model_id: Option<String>,
}

impl ToolContext {
    /// A context for the agent called `agent`, with no call, provider or
    /// model set.
    pub fn new(session_id: &str, message_id: &str, working_directory: &str) -> (ctx: ToolContext)
        ensures
            ctx.session_id@ == session_id@,
            ctx.message_id@ == message_id@,
            ctx.agent@ == "agent"@,
            ctx.working_directory@ == working_directory@,
            ctx.call_id is None,
            ctx.provider_id is None,
            ctx.model_id is None,
    {
        ToolContext {
            session_id: session_id.to_owned(),
            message_id: message_id.to_owned(),
            agent: "agent".to_owned(),
            working_directory: working_directory.to_owned(),
            call_id: None,
            provider_id: None,
            model_id: None,
        }
    }

    /// This context with the call set.
    pub fn with_call_id(self, call_id: &str) -> (ctx: ToolContext)
        ensures
            ctx.call_id matches Some(id) && id@ == call_id@,
            ctx.session_id == self.session_id,
            ctx.message_id == self.message_id,
            ctx.agent == self.agent,
            ctx.working_directory == self.working_directory,
            ctx.provider_id == self.provider_id,
            ctx.model_id == self.model_id,
    {
        let mut ctx = self;
        ctx.call_id = Some(call_id.to_owned());
        ctx
    }

    /// This context with provider and model set.
    pub fn with_model(self, provider_id: &str, model_id: &str) -> (ctx: ToolContext)
        ensures
            ctx.provider_id matches Some(id) && id@ == provider_id@,
            ctx.model_id matches Some(id) && id@ == model_id@,
            ctx.session_id == self.session_id,
            ctx.message_id == self.message_id,
            ctx.agent == self.agent,
            ctx.working_directory == self.working_directory,
            ctx.call_id == self.call_id,
    {
        let mut ctx = self;
        ctx.provider_id = Some(provider_id.to_owned());
        ctx.model_id = Some(model_id.to_owned());
        ctx
    }

    /// The path that `path` means in this context: `path` itself where it
    /// is absolute, else `path` adjoined to the working directory.
    pub open spec fn resolved(&self, path: Seq<char>) -> Seq<char> {
        if path_is_absolute(path) {
            path
        } else {
            path_join(self.working_directory@, path)
        }
    }

    /// How `path` is shown in this context: without the working directory
    /// in front where it lies inside it, else as it stands.
    pub open spec fn shown(&self, path: Seq<char>) -> Seq<char> {
        match path_strip_prefix(path, self.working_directory@) {
            Some(rest) => rest,
            None => path,
        }
    }

    /// Resolves `path` against the working directory.
    pub fn resolve_path(&self, path: &str) -> (r: String)
        ensures
            r@ == self.resolved(path@),
    {
        if is_absolute(path) {
            path.to_owned()
        } else {
            join(self.working_directory.as_str(), path)
        }
    }

    /// The path `path` as seen from the working directory.
    pub fn relative_path(&self, path: &str) -> (r: String)
        ensures
            r@ == self.shown(path@),
    {
        match strip_prefix(path, self.working_directory.as_str()) {
            Some(rest) => rest,
            None => path.to_owned(),
        }
    }
}

} // verus!
