//! What the dispatch of a tool call reports: the representation and size of
//! the call for compatibility diagnostics, and the invocation record of the
//! rollout trace.
use vstd::prelude::*;

use crate::compatibility::{CompatibilityEventInput, CompatibilityOutcome, ToolRepresentation};
use crate::tool_call_loop::{in_default_namespace, ToolName, ToolPayload};
use crate::text::utf8;

verus! {

broadcast use vstd::string::group_string_axioms;

/// Who issued a tool call.
#[derive(Clone, Debug)]
pub enum ToolCallSource {
    Direct,
    DirectPlaintextMessage,
    CodeMode { cell_id: String, runtime_tool_call_id: String },
}

/// How a call reached its tool: from a code cell, or by its payload kind.
pub open spec fn representation_of(source: ToolCallSource, payload: ToolPayload) -> ToolRepresentation {
    match source {
        ToolCallSource::CodeMode { .. } => ToolRepresentation::CodeMode,
        _ => match payload {
            ToolPayload::Function { .. } => ToolRepresentation::Function,
            ToolPayload::ToolSearch { .. } => ToolRepresentation::ToolSearch,
            ToolPayload::Custom { .. } => ToolRepresentation::Custom,
        },
    }
}

/// How a call reached its tool.
pub fn tool_representation(source: &ToolCallSource, payload: &ToolPayload) -> (r: ToolRepresentation)
    ensures
        r == representation_of(*source, *payload),
{
    match source {
        ToolCallSource::CodeMode { .. } => ToolRepresentation::CodeMode,
        _ => match payload {
            ToolPayload::Function { .. } => ToolRepresentation::Function,
            ToolPayload::ToolSearch { .. } => ToolRepresentation::ToolSearch,
            ToolPayload::Custom { .. } => ToolRepresentation::Custom,
        },
    }
}

/// The text a payload carries (for a tool search, its JSON form).
pub open spec fn payload_text(payload: ToolPayload) -> Seq<char> {
    match payload {
        ToolPayload::Function { arguments } => arguments@,
        ToolPayload::ToolSearch { arguments } => arguments@,
        ToolPayload::Custom { input } => input@,
    }
}

/// The size of a call's payload in bytes.
pub fn tool_payload_bytes(payload: &ToolPayload) -> (r: usize)
    ensures
        r == utf8(payload_text(*payload)).len(),
{
    match payload {
        ToolPayload::Function { arguments } => arguments.as_str().as_bytes().len(),
        ToolPayload::ToolSearch { arguments } => arguments.as_str().as_bytes().len(),
        ToolPayload::Custom { input } => input.as_str().as_bytes().len(),
    }
}

/// What diagnostics remember of a call while it runs.
#[derive(Clone, Debug)]
pub struct CompatibilityToolTrace {
    pub tool_name: String,
    pub tool_namespace: Option<String>,
    pub representation: ToolRepresentation,
    pub input_bytes: usize,
}

impl CompatibilityToolTrace {
    /// The trace of a call about to run.
    pub fn new(tool_name: &ToolName, source: &ToolCallSource, payload: &ToolPayload) -> (r: Self)
        ensures
            r.tool_name@ == tool_name.name@,
            crate::compatibility::opt_string_view(r.tool_namespace) == crate::compatibility::opt_string_view(
                tool_name.namespace,
            ),
            r.representation == representation_of(*source, *payload),
            r.input_bytes == utf8(payload_text(*payload)).len(),
    {
        CompatibilityToolTrace {
            tool_name: tool_name.name.clone(),
            tool_namespace: match &tool_name.namespace {
                Some(n) => Some(n.clone()),
                None => None,
            },
            representation: tool_representation(source, payload),
            input_bytes: tool_payload_bytes(payload),
        }
    }

    /// The observation of a completed call: its outcome, and, when it did not
    /// succeed, its output as the error to classify.
    pub fn completed_input<'a>(&'a self, success: bool, output: &'a str, duration_ms: u128) -> (r: CompatibilityEventInput<'a>)
        ensures
            r.phase@ == "tool.dispatch"@,
            r.outcome == if success {
                CompatibilityOutcome::Success
            } else {
                CompatibilityOutcome::Failure
            },
            r.tool_name matches Some(t) && t@ == self.tool_name@,
            crate::compatibility::opt_string_view(self.tool_namespace) == match r.tool_namespace {
                Some(n) => Some(n@),
                None => None,
            },
            r.representation == self.representation,
            r.duration_ms == duration_ms,
            r.input_bytes == self.input_bytes,
            r.output_bytes == utf8(output@).len(),
            r.error == if success {
                None
            } else {
                Some(output)
            },
    {
        CompatibilityEventInput {
            phase: "tool.dispatch",
            outcome: if success {
                CompatibilityOutcome::Success
            } else {
                CompatibilityOutcome::Failure
            },
            tool_name: Some(self.tool_name.as_str()),
            tool_namespace: match &self.tool_namespace {
                Some(n) => Some(n.as_str()),
                None => None,
            },
            representation: self.representation,
            duration_ms,
            input_bytes: self.input_bytes,
            output_bytes: output.as_bytes().len(),
            error: if success {
                None
            } else {
                Some(output)
            },
        }
    }

    /// The observation of a call that failed before producing output.
    pub fn failed_input<'a>(&'a self, error_message: &'a str, duration_ms: u128) -> (r: CompatibilityEventInput<'a>)
        ensures
            r.phase@ == "tool.dispatch"@,
            r.outcome == CompatibilityOutcome::Failure,
            r.tool_name matches Some(t) && t@ == self.tool_name@,
            crate::compatibility::opt_string_view(self.tool_namespace) == match r.tool_namespace {
                Some(n) => Some(n@),
                None => None,
            },
            r.representation == self.representation,
            r.duration_ms == duration_ms,
            r.input_bytes == self.input_bytes,
            r.output_bytes == utf8(error_message@).len(),
            r.error == Some(error_message),
    {
        CompatibilityEventInput {
            phase: "tool.dispatch",
            outcome: CompatibilityOutcome::Failure,
            tool_name: Some(self.tool_name.as_str()),
            tool_namespace: match &self.tool_namespace {
                Some(n) => Some(n.as_str()),
                None => None,
            },
            representation: self.representation,
            duration_ms,
            input_bytes: self.input_bytes,
            output_bytes: error_message.as_bytes().len(),
            error: Some(error_message),
        }
    }
}

/// Who a dispatched call is attributed to in the rollout trace.
#[derive(Clone, Debug, PartialEq, Eq)]
pub enum ToolDispatchRequester {
    Model { model_visible_call_id: String },
    CodeCell { runtime_cell_id: String, runtime_tool_call_id: String },
}

/// The payload of a dispatched call as the rollout trace records it.
#[derive(Clone, Debug, PartialEq, Eq)]
pub enum ToolDispatchPayload {
    Function { arguments: String },
    ToolSearch { arguments: String },
    Custom { input: String },
}

/// The rollout trace record of a dispatched call.
#[derive(Clone, Debug, PartialEq, Eq)]
pub struct ToolDispatchInvocation {
    pub thread_id: String,
    pub codex_turn_id: String,
    pub tool_call_id: String,
    pub tool_name: String,
    pub tool_namespace: Option<String>,
    pub requester: ToolDispatchRequester,
    pub payload: ToolDispatchPayload,
}

/// The rollout trace record of a call: the namespace is kept only outside
/// the default namespace; a direct call is attributed to the model by its
/// call id, a code-mode call to its cell.
pub fn tool_dispatch_invocation(
    thread_id: &str,
    turn_id: &str,
    call_id: &str,
    tool_name: &ToolName,
    source: &ToolCallSource,
    payload: &ToolPayload,
) -> (r: ToolDispatchInvocation)
    ensures
        r.thread_id@ == thread_id@,
        r.codex_turn_id@ == turn_id@,
        r.tool_call_id@ == call_id@,
        r.tool_name@ == tool_name.name@,
        crate::compatibility::opt_string_view(r.tool_namespace) == if in_default_namespace(*tool_name) {
            None
        } else {
            crate::compatibility::opt_string_view(tool_name.namespace)
        },
        match source {
            ToolCallSource::CodeMode { cell_id, runtime_tool_call_id } => r.requester
                matches ToolDispatchRequester::CodeCell { runtime_cell_id, runtime_tool_call_id: t }
                && runtime_cell_id@ == cell_id@ && t@ == runtime_tool_call_id@,
            _ => r.requester matches ToolDispatchRequester::Model { model_visible_call_id } && model_visible_call_id@
                == call_id@,
        },
        match payload {
            ToolPayload::Function { arguments } => r.payload matches ToolDispatchPayload::Function {
                arguments: a,
            } && a@ == arguments@,
            ToolPayload::ToolSearch { arguments } => r.payload matches ToolDispatchPayload::ToolSearch {
                arguments: a,
            } && a@ == arguments@,
            ToolPayload::Custom { input } => r.payload matches ToolDispatchPayload::Custom { input: i }
                && i@ == input@,
        },
{
    let requester = match source {
        ToolCallSource::CodeMode { cell_id, runtime_tool_call_id } => ToolDispatchRequester::CodeCell {
            runtime_cell_id: cell_id.clone(),
            runtime_tool_call_id: runtime_tool_call_id.clone(),
        },
        _ => ToolDispatchRequester::Model { model_visible_call_id: call_id.to_owned() },
    };
    let tool_namespace = if tool_name.is_default_namespace() {
        None
    } else {
        match &tool_name.namespace {
            Some(n) => Some(n.clone()),
            None => None,
        }
    };
    let payload = match payload {
        ToolPayload::Function { arguments } => ToolDispatchPayload::Function { arguments: arguments.clone() },
        ToolPayload::ToolSearch { arguments } => ToolDispatchPayload::ToolSearch { arguments: arguments.clone() },
        ToolPayload::Custom { input } => ToolDispatchPayload::Custom { input: input.clone() },
    };
    ToolDispatchInvocation {
        thread_id: thread_id.to_owned(),
        codex_turn_id: turn_id.to_owned(),
        tool_call_id: call_id.to_owned(),
        tool_name: tool_name.name.clone(),
        tool_namespace,
        requester,
        payload,
    }
}

} // verus!
