//! Classification of compatibility failures into stable, content-free
//! categories.
use vstd::prelude::*;
use vstd::string::StringSliceAdditionalSpecFns;

use crate::text::{ascii_lower_bytes, ascii_lowercase, bytes_contain, bytes_start_with, contains_seq, starts_with_seq, str_contains, str_eq};

verus! {

/// A stable category for an observed compatibility event.
#[derive(Clone, Copy, Debug, PartialEq, Eq, Structural)]
pub enum FailureCategory {
    FileReadAutoExpanded,
    FileReadUnchanged,
    TaskPayloadPlaintext,
    TaskPayloadEncrypted,
    ArgumentsNormalized,
    ForkRoleIgnored,
    OperationCompleted,
    TextIntegrity,
    ToolLoop,
    SandboxHelperLaunch,
    SandboxAclDenyRead,
    SandboxProxyEnv,
    SandboxSplitRoots,
    SandboxSetup,
    SandboxProcessStart,
    SandboxAccessDenied,
    CustomToolUnsupported,
    WaitTargetsString,
    InvalidFunctionArguments,
    ForkContextAgentType,
    MissingToolOutput,
    ThreadUnavailable,
    PatchMissingBegin,
    MergeConflict,
    PatchHunkFormat,
    PatchFormat,
    PatchContextMismatch,
    EncodingUnsupported,
    MutationNoOp,
    PowershellParser,
    CommandLineTooLong,
    WaitTimeout,
    OperationTimeout,
    ApplyPatchFailed,
    UnknownFailure,
}

/// The stable code of a category.
pub open spec fn category_code(c: FailureCategory) -> &'static str {
    match c {
        FailureCategory::FileReadAutoExpanded => "file.read.auto_expanded",
        FailureCategory::FileReadUnchanged => "file.read.unchanged",
        FailureCategory::TaskPayloadPlaintext => "multi_agent.task_payload.plaintext",
        FailureCategory::TaskPayloadEncrypted => "multi_agent.task_payload.encrypted",
        FailureCategory::ArgumentsNormalized => "multi_agent.arguments.normalized",
        FailureCategory::ForkRoleIgnored => "multi_agent.arguments.fork_role_ignored",
        FailureCategory::OperationCompleted => "operation.completed",
        FailureCategory::TextIntegrity => "provider.output.text_integrity",
        FailureCategory::ToolLoop => "provider.output.tool_loop",
        FailureCategory::SandboxHelperLaunch => "windows.sandbox.helper_launch",
        FailureCategory::SandboxAclDenyRead => "windows.sandbox.acl_deny_read",
        FailureCategory::SandboxProxyEnv => "windows.sandbox.proxy_env",
        FailureCategory::SandboxSplitRoots => "windows.sandbox.split_roots",
        FailureCategory::SandboxSetup => "windows.sandbox.setup",
        FailureCategory::SandboxProcessStart => "windows.sandbox.process_start",
        FailureCategory::SandboxAccessDenied => "windows.sandbox.access_denied",
        FailureCategory::CustomToolUnsupported => "provider.tool_schema.custom_unsupported",
        FailureCategory::WaitTargetsString => "multi_agent.arguments.targets_string",
        FailureCategory::InvalidFunctionArguments => "provider.function_arguments.invalid",
        FailureCategory::ForkContextAgentType => "multi_agent.arguments.fork_context_agent_type",
        FailureCategory::MissingToolOutput => "provider.history.missing_tool_output",
        FailureCategory::ThreadUnavailable => "multi_agent.thread.unavailable",
        FailureCategory::PatchMissingBegin => "file.apply_patch.missing_begin",
        FailureCategory::MergeConflict => "file.merge_conflict",
        FailureCategory::PatchHunkFormat => "file.apply_patch.hunk_format",
        FailureCategory::PatchFormat => "file.apply_patch.format",
        FailureCategory::PatchContextMismatch => "file.apply_patch.context_mismatch",
        FailureCategory::EncodingUnsupported => "file.encoding.unsupported",
        FailureCategory::MutationNoOp => "file.mutation.no_op",
        FailureCategory::PowershellParser => "windows.powershell.parser",
        FailureCategory::CommandLineTooLong => "windows.command_line.too_long",
        FailureCategory::WaitTimeout => "multi_agent.wait.timeout",
        FailureCategory::OperationTimeout => "operation.timeout",
        FailureCategory::ApplyPatchFailed => "file.apply_patch.failed",
        FailureCategory::UnknownFailure => "unknown.failure",
    }
}

/// The human-readable summary of a category.
pub open spec fn category_summary(c: FailureCategory) -> &'static str {
    match c {
        FailureCategory::FileReadAutoExpanded => "A consecutive small read was expanded to reduce tool calls",
        FailureCategory::FileReadUnchanged => "An unchanged range reused content already present in history",
        FailureCategory::TaskPayloadPlaintext => "A sub-agent task used plaintext transport",
        FailureCategory::TaskPayloadEncrypted => "A sub-agent task used encrypted transport",
        FailureCategory::ArgumentsNormalized => "A known multi-agent argument wrapper was normalized",
        FailureCategory::ForkRoleIgnored => "A full-history child ignored an explicit role override",
        FailureCategory::OperationCompleted => "operation completed",
        FailureCategory::TextIntegrity => "Model output contained a text integrity signal",
        FailureCategory::ToolLoop => "Model repeated an identical tool call",
        FailureCategory::SandboxHelperLaunch => "Windows sandbox helper failed to launch",
        FailureCategory::SandboxAclDenyRead => "Windows sandbox failed while applying deny-read ACLs",
        FailureCategory::SandboxProxyEnv => "Windows sandbox failed with proxy environment settings",
        FailureCategory::SandboxSplitRoots => "Windows sandbox rejected split writable roots",
        FailureCategory::SandboxSetup => "Windows sandbox setup failed",
        FailureCategory::SandboxProcessStart => "Windows sandbox process startup failed",
        FailureCategory::SandboxAccessDenied => "Windows sandbox denied filesystem access",
        FailureCategory::CustomToolUnsupported => "Provider rejected a custom/freeform tool",
        FailureCategory::WaitTargetsString => "wait_agent targets was encoded as a string instead of an array",
        FailureCategory::InvalidFunctionArguments => "Provider returned invalid function arguments",
        FailureCategory::ForkContextAgentType => "spawn_agent combined a full-history fork with an unsupported role override",
        FailureCategory::MissingToolOutput => "A model request contained a tool call without its output",
        FailureCategory::ThreadUnavailable => "A referenced sub-agent thread was no longer available",
        FailureCategory::PatchMissingBegin => "apply_patch input was missing its Begin Patch marker",
        FailureCategory::MergeConflict => "A file mutation encountered unresolved merge conflict markers",
        FailureCategory::PatchHunkFormat => "apply_patch received an invalid hunk body",
        FailureCategory::PatchFormat => "apply_patch received an invalid patch format",
        FailureCategory::PatchContextMismatch => "apply_patch context did not match the file",
        FailureCategory::EncodingUnsupported => "File encoding was not supported",
        FailureCategory::MutationNoOp => "File mutation made no byte-level change",
        FailureCategory::PowershellParser => "PowerShell rejected the generated command",
        FailureCategory::CommandLineTooLong => "Windows command-line length limit was exceeded",
        FailureCategory::WaitTimeout => "wait_agent exceeded its deadline",
        FailureCategory::OperationTimeout => "Operation timed out",
        FailureCategory::ApplyPatchFailed => "apply_patch failed",
        FailureCategory::UnknownFailure => "Unclassified compatibility failure",
    }
}

impl FailureCategory {
    /// The stable code of this category.
    pub fn code(self) -> (s: &'static str)
        ensures
            s == category_code(self),
    {
        match self {
            FailureCategory::FileReadAutoExpanded => "file.read.auto_expanded",
            FailureCategory::FileReadUnchanged => "file.read.unchanged",
            FailureCategory::TaskPayloadPlaintext => "multi_agent.task_payload.plaintext",
            FailureCategory::TaskPayloadEncrypted => "multi_agent.task_payload.encrypted",
            FailureCategory::ArgumentsNormalized => "multi_agent.arguments.normalized",
            FailureCategory::ForkRoleIgnored => "multi_agent.arguments.fork_role_ignored",
            FailureCategory::OperationCompleted => "operation.completed",
            FailureCategory::TextIntegrity => "provider.output.text_integrity",
            FailureCategory::ToolLoop => "provider.output.tool_loop",
            FailureCategory::SandboxHelperLaunch => "windows.sandbox.helper_launch",
            FailureCategory::SandboxAclDenyRead => "windows.sandbox.acl_deny_read",
            FailureCategory::SandboxProxyEnv => "windows.sandbox.proxy_env",
            FailureCategory::SandboxSplitRoots => "windows.sandbox.split_roots",
            FailureCategory::SandboxSetup => "windows.sandbox.setup",
            FailureCategory::SandboxProcessStart => "windows.sandbox.process_start",
            FailureCategory::SandboxAccessDenied => "windows.sandbox.access_denied",
            FailureCategory::CustomToolUnsupported => "provider.tool_schema.custom_unsupported",
            FailureCategory::WaitTargetsString => "multi_agent.arguments.targets_string",
            FailureCategory::InvalidFunctionArguments => "provider.function_arguments.invalid",
            FailureCategory::ForkContextAgentType => "multi_agent.arguments.fork_context_agent_type",
            FailureCategory::MissingToolOutput => "provider.history.missing_tool_output",
            FailureCategory::ThreadUnavailable => "multi_agent.thread.unavailable",
            FailureCategory::PatchMissingBegin => "file.apply_patch.missing_begin",
            FailureCategory::MergeConflict => "file.merge_conflict",
            FailureCategory::PatchHunkFormat => "file.apply_patch.hunk_format",
            FailureCategory::PatchFormat => "file.apply_patch.format",
            FailureCategory::PatchContextMismatch => "file.apply_patch.context_mismatch",
            FailureCategory::EncodingUnsupported => "file.encoding.unsupported",
            FailureCategory::MutationNoOp => "file.mutation.no_op",
            FailureCategory::PowershellParser => "windows.powershell.parser",
            FailureCategory::CommandLineTooLong => "windows.command_line.too_long",
            FailureCategory::WaitTimeout => "multi_agent.wait.timeout",
            FailureCategory::OperationTimeout => "operation.timeout",
            FailureCategory::ApplyPatchFailed => "file.apply_patch.failed",
            FailureCategory::UnknownFailure => "unknown.failure",
        }
    }

    /// The human-readable summary of this category.
    pub fn summary(self) -> (s: &'static str)
        ensures
            s == category_summary(self),
    {
        match self {
            FailureCategory::FileReadAutoExpanded => "A consecutive small read was expanded to reduce tool calls",
            FailureCategory::FileReadUnchanged => "An unchanged range reused content already present in history",
            FailureCategory::TaskPayloadPlaintext => "A sub-agent task used plaintext transport",
            FailureCategory::TaskPayloadEncrypted => "A sub-agent task used encrypted transport",
            FailureCategory::ArgumentsNormalized => "A known multi-agent argument wrapper was normalized",
            FailureCategory::ForkRoleIgnored => "A full-history child ignored an explicit role override",
            FailureCategory::OperationCompleted => "operation completed",
            FailureCategory::TextIntegrity => "Model output contained a text integrity signal",
            FailureCategory::ToolLoop => "Model repeated an identical tool call",
            FailureCategory::SandboxHelperLaunch => "Windows sandbox helper failed to launch",
            FailureCategory::SandboxAclDenyRead => "Windows sandbox failed while applying deny-read ACLs",
            FailureCategory::SandboxProxyEnv => "Windows sandbox failed with proxy environment settings",
            FailureCategory::SandboxSplitRoots => "Windows sandbox rejected split writable roots",
            FailureCategory::SandboxSetup => "Windows sandbox setup failed",
            FailureCategory::SandboxProcessStart => "Windows sandbox process startup failed",
            FailureCategory::SandboxAccessDenied => "Windows sandbox denied filesystem access",
            FailureCategory::CustomToolUnsupported => "Provider rejected a custom/freeform tool",
            FailureCategory::WaitTargetsString => "wait_agent targets was encoded as a string instead of an array",
            FailureCategory::InvalidFunctionArguments => "Provider returned invalid function arguments",
            FailureCategory::ForkContextAgentType => "spawn_agent combined a full-history fork with an unsupported role override",
            FailureCategory::MissingToolOutput => "A model request contained a tool call without its output",
            FailureCategory::ThreadUnavailable => "A referenced sub-agent thread was no longer available",
            FailureCategory::PatchMissingBegin => "apply_patch input was missing its Begin Patch marker",
            FailureCategory::MergeConflict => "A file mutation encountered unresolved merge conflict markers",
            FailureCategory::PatchHunkFormat => "apply_patch received an invalid hunk body",
            FailureCategory::PatchFormat => "apply_patch received an invalid patch format",
            FailureCategory::PatchContextMismatch => "apply_patch context did not match the file",
            FailureCategory::EncodingUnsupported => "File encoding was not supported",
            FailureCategory::MutationNoOp => "File mutation made no byte-level change",
            FailureCategory::PowershellParser => "PowerShell rejected the generated command",
            FailureCategory::CommandLineTooLong => "Windows command-line length limit was exceeded",
            FailureCategory::WaitTimeout => "wait_agent exceeded its deadline",
            FailureCategory::OperationTimeout => "Operation timed out",
            FailureCategory::ApplyPatchFailed => "apply_patch failed",
            FailureCategory::UnknownFailure => "Unclassified compatibility failure",
        }
    }
}

/// A classified error: its category, with the category's code and summary.
#[derive(Clone, Copy, Debug)]
pub struct ClassifiedError {
    pub category: FailureCategory,
    pub code: &'static str,
    pub summary: &'static str,
}

/// The (lower-cased) error text contains `needle`.
pub open spec fn has(e: Seq<u8>, needle: &str) -> bool {
    contains_seq(e, needle.spec_bytes())
}

/// The tool name is exactly `name`.
pub open spec fn tool_is(tool: Option<Seq<char>>, name: &str) -> bool {
    tool == Some(name@)
}

/// The category of an event with the given phase, tool and error text: the
/// fixed phases first, then, for an event with an error, the first rule that
/// the ASCII-lower-cased error text meets.
pub open spec fn category_of(phase: &str, tool: Option<Seq<char>>, error: Option<Seq<u8>>) -> FailureCategory {
    if phase@ == "file.read.auto_expanded"@ {
        FailureCategory::FileReadAutoExpanded
    }     else if phase@ == "file.read.unchanged"@ {
        FailureCategory::FileReadUnchanged
    }     else if phase@ == "multi_agent.task_payload.plaintext"@ {
        FailureCategory::TaskPayloadPlaintext
    }     else if phase@ == "multi_agent.task_payload.encrypted"@ {
        FailureCategory::TaskPayloadEncrypted
    }     else if phase@ == "multi_agent.arguments.normalized"@ {
        FailureCategory::ArgumentsNormalized
    }     else if phase@ == "multi_agent.arguments.fork_role_ignored"@ {
        FailureCategory::ForkRoleIgnored
    } else {
        match error {
            None => FailureCategory::OperationCompleted,
            Some(raw) => error_category(phase, tool, ascii_lower_bytes(raw)),
        }
    }
}

/// The category of a failing event whose lower-cased error text is `e`.
pub open spec fn error_category(phase: &str, tool: Option<Seq<char>>, e: Seq<u8>) -> FailureCategory {
    if starts_with_seq(phase.spec_bytes(), "model.text_integrity".spec_bytes()) {
        FailureCategory::TextIntegrity
    } else if starts_with_seq(phase.spec_bytes(), "model.tool_loop".spec_bytes()) {
        FailureCategory::ToolLoop
    } else if (has(e, "orchestrator_helper_launch_canceled") || has(e, "shellexecuteexw failed") || has(e, "windowsapps")) {
        FailureCategory::SandboxHelperLaunch
    } else if (has(e, "apply deny-read acls") || has(e, "deny-read acls")) {
        FailureCategory::SandboxAclDenyRead
    } else if (has(e, "proxy") && has(e, "sandbox")) {
        FailureCategory::SandboxProxyEnv
    } else if has(e, "split writable root") {
        FailureCategory::SandboxSplitRoots
    } else if (has(e, "setup refresh") || has(e, "prepare fs sandbox")) {
        FailureCategory::SandboxSetup
    } else if (has(e, "createprocesswithlogonw") || has(e, "failed: 267")) {
        FailureCategory::SandboxProcessStart
    } else if (has(e, "access is denied") || has(e, "access denied") || has(e, "eperm")) {
        FailureCategory::SandboxAccessDenied
    } else if (has(e, "custom/freeform") || (has(e, "custom tool") && has(e, "not support"))) {
        FailureCategory::CustomToolUnsupported
    } else if (has(e, "failed to parse function arguments") || has(e, "invalid function arguments")) {
        if (tool_is(tool, "wait_agent") && has(e, "invalid type: string") && has(e, "expected a sequence")) {
            FailureCategory::WaitTargetsString
        } else {
            FailureCategory::InvalidFunctionArguments
        }
    } else if has(e, "full-history forked agents inherit the parent agent type") {
        FailureCategory::ForkContextAgentType
    } else if has(e, "no tool output found for tool call") {
        FailureCategory::MissingToolOutput
    } else if (has(e, "no longer available") && tool_is(tool, "wait_agent")) {
        FailureCategory::ThreadUnavailable
    } else if (has(e, "first line of the patch") || has(e, "*** begin patch")) {
        FailureCategory::PatchMissingBegin
    } else if (has(e, "unresolved git merge conflict") || has(e, "<<<<<<<") || has(e, ">>>>>>>")) {
        FailureCategory::MergeConflict
    } else if (has(e, "unexpected line found in update hunk") || has(e, "every line should start with") || has(e, "expected update hunk to start") || has(e, "not a valid hunk header")) {
        FailureCategory::PatchHunkFormat
    } else if (has(e, "invalid patch") || has(e, "invalid hunk")) {
        FailureCategory::PatchFormat
    } else if has(e, "failed to find expected lines") {
        FailureCategory::PatchContextMismatch
    } else if (has(e, "utf-16") || has(e, "invalid utf-8")) {
        FailureCategory::EncodingUnsupported
    } else if (has(e, "no-op") || has(e, "does not change")) {
        FailureCategory::MutationNoOp
    } else if (has(e, "parsererror") || (has(e, "unexpected token") && contains_seq(phase.spec_bytes(), "exec".spec_bytes()))) {
        FailureCategory::PowershellParser
    } else if (has(e, "command line is too long") || has(e, "filename or extension is too long")) {
        FailureCategory::CommandLineTooLong
    } else if ((has(e, "timed out") || has(e, "timeout")) && tool_is(tool, "wait_agent")) {
        FailureCategory::WaitTimeout
    } else if (has(e, "timed out") || has(e, "timeout")) {
        FailureCategory::OperationTimeout
    } else if tool_is(tool, "apply_patch") {
        FailureCategory::ApplyPatchFailed
    } else {
        FailureCategory::UnknownFailure
    }
}

fn has_exec(e: &Vec<u8>, needle: &str) -> (r: bool)
    ensures
        r == has(e@, needle),
{
    bytes_contain(e.as_slice(), needle.as_bytes())
}

fn tool_is_exec(tool: Option<&str>, name: &str) -> (r: bool)
    ensures
        r == tool_is(match tool { Some(t) => Some(t@), None => None }, name),
{
    match tool {
        Some(t) => str_eq(t, name),
        None => false,
    }
}

pub open spec fn opt_chars(s: Option<&str>) -> Option<Seq<char>> {
    match s {
        Some(t) => Some(t@),
        None => None,
    }
}

pub open spec fn opt_bytes(s: Option<&str>) -> Option<Seq<u8>> {
    match s {
        Some(t) => Some(t.spec_bytes()),
        None => None,
    }
}

fn error_category_exec(phase: &str, tool: Option<&str>, e: &Vec<u8>) -> (r: FailureCategory)
    ensures
        r == error_category(phase, opt_chars(tool), e@),
{
    if bytes_start_with(phase.as_bytes(), "model.text_integrity".as_bytes()) {
        FailureCategory::TextIntegrity
    } else if bytes_start_with(phase.as_bytes(), "model.tool_loop".as_bytes()) {
        FailureCategory::ToolLoop
    } else if (has_exec(e, "orchestrator_helper_launch_canceled") || has_exec(e, "shellexecuteexw failed") || has_exec(e, "windowsapps")) {
        FailureCategory::SandboxHelperLaunch
    } else if (has_exec(e, "apply deny-read acls") || has_exec(e, "deny-read acls")) {
        FailureCategory::SandboxAclDenyRead
    } else if (has_exec(e, "proxy") && has_exec(e, "sandbox")) {
        FailureCategory::SandboxProxyEnv
    } else if has_exec(e, "split writable root") {
        FailureCategory::SandboxSplitRoots
    } else if (has_exec(e, "setup refresh") || has_exec(e, "prepare fs sandbox")) {
        FailureCategory::SandboxSetup
    } else if (has_exec(e, "createprocesswithlogonw") || has_exec(e, "failed: 267")) {
        FailureCategory::SandboxProcessStart
    } else if (has_exec(e, "access is denied") || has_exec(e, "access denied") || has_exec(e, "eperm")) {
        FailureCategory::SandboxAccessDenied
    } else if (has_exec(e, "custom/freeform") || (has_exec(e, "custom tool") && has_exec(e, "not support"))) {
        FailureCategory::CustomToolUnsupported
    } else if (has_exec(e, "failed to parse function arguments") || has_exec(e, "invalid function arguments")) {
        if (tool_is_exec(tool, "wait_agent") && has_exec(e, "invalid type: string") && has_exec(e, "expected a sequence")) {
            FailureCategory::WaitTargetsString
        } else {
            FailureCategory::InvalidFunctionArguments
        }
    } else if has_exec(e, "full-history forked agents inherit the parent agent type") {
        FailureCategory::ForkContextAgentType
    } else if has_exec(e, "no tool output found for tool call") {
        FailureCategory::MissingToolOutput
    } else if (has_exec(e, "no longer available") && tool_is_exec(tool, "wait_agent")) {
        FailureCategory::ThreadUnavailable
    } else if (has_exec(e, "first line of the patch") || has_exec(e, "*** begin patch")) {
        FailureCategory::PatchMissingBegin
    } else if (has_exec(e, "unresolved git merge conflict") || has_exec(e, "<<<<<<<") || has_exec(e, ">>>>>>>")) {
        FailureCategory::MergeConflict
    } else if (has_exec(e, "unexpected line found in update hunk") || has_exec(e, "every line should start with") || has_exec(e, "expected update hunk to start") || has_exec(e, "not a valid hunk header")) {
        FailureCategory::PatchHunkFormat
    } else if (has_exec(e, "invalid patch") || has_exec(e, "invalid hunk")) {
        FailureCategory::PatchFormat
    } else if has_exec(e, "failed to find expected lines") {
        FailureCategory::PatchContextMismatch
    } else if (has_exec(e, "utf-16") || has_exec(e, "invalid utf-8")) {
        FailureCategory::EncodingUnsupported
    } else if (has_exec(e, "no-op") || has_exec(e, "does not change")) {
        FailureCategory::MutationNoOp
    } else if (has_exec(e, "parsererror") || (has_exec(e, "unexpected token") && str_contains(phase, "exec"))) {
        FailureCategory::PowershellParser
    } else if (has_exec(e, "command line is too long") || has_exec(e, "filename or extension is too long")) {
        FailureCategory::CommandLineTooLong
    } else if ((has_exec(e, "timed out") || has_exec(e, "timeout")) && tool_is_exec(tool, "wait_agent")) {
        FailureCategory::WaitTimeout
    } else if (has_exec(e, "timed out") || has_exec(e, "timeout")) {
        FailureCategory::OperationTimeout
    } else if tool_is_exec(tool, "apply_patch") {
        FailureCategory::ApplyPatchFailed
    } else {
        FailureCategory::UnknownFailure
    }
}

/// Classifies an event by its phase, tool and error text.
pub fn classify(phase: &str, tool: Option<&str>, error: Option<&str>) -> (r: ClassifiedError)
    ensures
        r.category == category_of(phase, opt_chars(tool), opt_bytes(error)),
        r.code == category_code(r.category),
        r.summary == category_summary(r.category),
{
    let category = if str_eq(phase, "file.read.auto_expanded") {
        FailureCategory::FileReadAutoExpanded
    } else if str_eq(phase, "file.read.unchanged") {
        FailureCategory::FileReadUnchanged
    } else if str_eq(phase, "multi_agent.task_payload.plaintext") {
        FailureCategory::TaskPayloadPlaintext
    } else if str_eq(phase, "multi_agent.task_payload.encrypted") {
        FailureCategory::TaskPayloadEncrypted
    } else if str_eq(phase, "multi_agent.arguments.normalized") {
        FailureCategory::ArgumentsNormalized
    } else if str_eq(phase, "multi_agent.arguments.fork_role_ignored") {
        FailureCategory::ForkRoleIgnored
    } else {
        match error {
            None => FailureCategory::OperationCompleted,
            Some(raw) => {
                let lowered = ascii_lowercase(raw.as_bytes());
                error_category_exec(phase, tool, &lowered)
            },
        }
    };
    classified(category)
}

/// The classified error of a category.
pub fn classified(category: FailureCategory) -> (r: ClassifiedError)
    ensures
        r.category == category,
        r.code == category_code(category),
        r.summary == category_summary(category),
{
    ClassifiedError { category, code: category.code(), summary: category.summary() }
}

/// The precedence of the failure categories: when an error text carries the
/// marks of several, the one ranked first is reported.
pub open spec fn precedence(c: FailureCategory) -> int {
    match c {
        FailureCategory::TextIntegrity => 0,
        FailureCategory::ToolLoop => 1,
        FailureCategory::SandboxHelperLaunch => 2,
        FailureCategory::SandboxAclDenyRead => 3,
        FailureCategory::SandboxProxyEnv => 4,
        FailureCategory::SandboxSplitRoots => 5,
        FailureCategory::SandboxSetup => 6,
        FailureCategory::SandboxProcessStart => 7,
        FailureCategory::SandboxAccessDenied => 8,
        FailureCategory::CustomToolUnsupported => 9,
        FailureCategory::WaitTargetsString => 10,
        FailureCategory::InvalidFunctionArguments => 11,
        FailureCategory::ForkContextAgentType => 12,
        FailureCategory::MissingToolOutput => 13,
        FailureCategory::ThreadUnavailable => 14,
        FailureCategory::PatchMissingBegin => 15,
        FailureCategory::MergeConflict => 16,
        FailureCategory::PatchHunkFormat => 17,
        FailureCategory::PatchFormat => 18,
        FailureCategory::PatchContextMismatch => 19,
        FailureCategory::EncodingUnsupported => 20,
        FailureCategory::MutationNoOp => 21,
        FailureCategory::PowershellParser => 22,
        FailureCategory::CommandLineTooLong => 23,
        FailureCategory::WaitTimeout => 24,
        FailureCategory::OperationTimeout => 25,
        FailureCategory::ApplyPatchFailed => 26,
        FailureCategory::UnknownFailure => 27,
        _ => 28,
    }
}

/// A failure's phase, tool and lower-cased error text `e` carry the marks
/// of category `c` (every failure carries those of `UnknownFailure`).
pub open spec fn evidence(phase: &str, tool: Option<Seq<char>>, e: Seq<u8>, c: FailureCategory) -> bool {
    let timed_out = has(e, "timed out") || has(e, "timeout");
    let bad_arguments = has(e, "failed to parse function arguments") || has(e, "invalid function arguments");
    match c {
        FailureCategory::TextIntegrity => starts_with_seq(phase.spec_bytes(), "model.text_integrity".spec_bytes()),
        FailureCategory::ToolLoop => starts_with_seq(phase.spec_bytes(), "model.tool_loop".spec_bytes()),
        FailureCategory::SandboxHelperLaunch => has(e, "orchestrator_helper_launch_canceled") || has(
            e,
            "shellexecuteexw failed",
        ) || has(e, "windowsapps"),
        FailureCategory::SandboxAclDenyRead => has(e, "apply deny-read acls") || has(e, "deny-read acls"),
        FailureCategory::SandboxProxyEnv => has(e, "proxy") && has(e, "sandbox"),
        FailureCategory::SandboxSplitRoots => has(e, "split writable root"),
        FailureCategory::SandboxSetup => has(e, "setup refresh") || has(e, "prepare fs sandbox"),
        FailureCategory::SandboxProcessStart => has(e, "createprocesswithlogonw") || has(e, "failed: 267"),
        FailureCategory::SandboxAccessDenied => has(e, "access is denied") || has(e, "access denied") || has(
            e,
            "eperm",
        ),
        FailureCategory::CustomToolUnsupported => has(e, "custom/freeform") || (has(e, "custom tool") && has(
            e,
            "not support",
        )),
        FailureCategory::WaitTargetsString => bad_arguments && tool_is(tool, "wait_agent") && has(
            e,
            "invalid type: string",
        ) && has(e, "expected a sequence"),
        FailureCategory::InvalidFunctionArguments => bad_arguments,
        FailureCategory::ForkContextAgentType => has(e, "full-history forked agents inherit the parent agent type"),
        FailureCategory::MissingToolOutput => has(e, "no tool output found for tool call"),
        FailureCategory::ThreadUnavailable => has(e, "no longer available") && tool_is(tool, "wait_agent"),
        FailureCategory::PatchMissingBegin => has(e, "first line of the patch") || has(e, "*** begin patch"),
        FailureCategory::MergeConflict => has(e, "unresolved git merge conflict") || has(e, "<<<<<<<") || has(
            e,
            ">>>>>>>",
        ),
        FailureCategory::PatchHunkFormat => has(e, "unexpected line found in update hunk") || has(
            e,
            "every line should start with",
        ) || has(e, "expected update hunk to start") || has(e, "not a valid hunk header"),
        FailureCategory::PatchFormat => has(e, "invalid patch") || has(e, "invalid hunk"),
        FailureCategory::PatchContextMismatch => has(e, "failed to find expected lines"),
        FailureCategory::EncodingUnsupported => has(e, "utf-16") || has(e, "invalid utf-8"),
        FailureCategory::MutationNoOp => has(e, "no-op") || has(e, "does not change"),
        FailureCategory::PowershellParser => has(e, "parsererror") || (has(e, "unexpected token") && contains_seq(
            phase.spec_bytes(),
            "exec".spec_bytes(),
        )),
        FailureCategory::CommandLineTooLong => has(e, "command line is too long") || has(
            e,
            "filename or extension is too long",
        ),
        FailureCategory::WaitTimeout => timed_out && tool_is(tool, "wait_agent"),
        FailureCategory::OperationTimeout => timed_out,
        FailureCategory::ApplyPatchFailed => tool_is(tool, "apply_patch"),
        FailureCategory::UnknownFailure => true,
        _ => false,
    }
}

/// Law: a failing event is classified by the marks its error text carries
/// (matched without regard to ASCII case): the reported category's marks
/// are present, and no category whose marks are present ranks before it.
/// So an error mentioning "failed to parse function arguments" is reported
/// as invalid function arguments (or as a string-valued `wait_agent` target
/// list) unless an earlier-ranked mark is present, and never as an
/// unclassified failure.
pub proof fn lemma_classified_by_first_mark(phase: &str, tool: Option<Seq<char>>, raw: Seq<u8>, c: FailureCategory)
    requires
        phase@ != "file.read.auto_expanded"@,
        phase@ != "file.read.unchanged"@,
        phase@ != "multi_agent.task_payload.plaintext"@,
        phase@ != "multi_agent.task_payload.encrypted"@,
        phase@ != "multi_agent.arguments.normalized"@,
        phase@ != "multi_agent.arguments.fork_role_ignored"@,
    ensures
        evidence(phase, tool, ascii_lower_bytes(raw), category_of(phase, tool, Some(raw))),
        evidence(phase, tool, ascii_lower_bytes(raw), c) ==> precedence(category_of(phase, tool, Some(raw)))
            <= precedence(c),
{
}

} // verus!
