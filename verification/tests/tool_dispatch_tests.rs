use codex_text_tools::compatibility::{CompatibilityOutcome, ToolRepresentation};
use codex_text_tools::tool_call_loop::{ToolName, ToolPayload};
use codex_text_tools::tool_dispatch::{
    tool_dispatch_invocation, tool_payload_bytes, tool_representation, CompatibilityToolTrace,
    ToolCallSource, ToolDispatchPayload, ToolDispatchRequester,
};

fn code_mode() -> ToolCallSource {
    ToolCallSource::CodeMode {
        cell_id: "cell-1".to_string(),
        runtime_tool_call_id: "runtime-9".to_string(),
    }
}

#[test]
fn representation_follows_source_then_payload() {
    let function = ToolPayload::Function {
        arguments: "{}".to_string(),
    };
    let custom = ToolPayload::Custom {
        input: "patch".to_string(),
    };
    let search = ToolPayload::ToolSearch {
        arguments: "{\"query\":\"x\"}".to_string(),
    };
    assert_eq!(
        tool_representation(&ToolCallSource::Direct, &function),
        ToolRepresentation::Function
    );
    assert_eq!(
        tool_representation(&ToolCallSource::DirectPlaintextMessage, &custom),
        ToolRepresentation::Custom
    );
    assert_eq!(
        tool_representation(&ToolCallSource::Direct, &search),
        ToolRepresentation::ToolSearch
    );
    assert_eq!(
        tool_representation(&code_mode(), &function),
        ToolRepresentation::CodeMode
    );
}

#[test]
fn payload_size_counts_utf8_bytes() {
    let payload = ToolPayload::Custom {
        input: "héllo".to_string(),
    };
    assert_eq!(tool_payload_bytes(&payload), 6);
}

#[test]
fn trace_reports_completion_and_failure() {
    let name = ToolName::namespaced("mcp__fs", "read");
    let payload = ToolPayload::Function {
        arguments: "{\"path\":\"a\"}".to_string(),
    };
    let trace = CompatibilityToolTrace::new(&name, &ToolCallSource::Direct, &payload);
    assert_eq!(trace.tool_name, "read");
    assert_eq!(trace.tool_namespace.as_deref(), Some("mcp__fs"));
    assert_eq!(trace.input_bytes, 12);

    let ok = trace.completed_input(true, "done", 15);
    assert_eq!(ok.phase, "tool.dispatch");
    assert_eq!(ok.outcome, CompatibilityOutcome::Success);
    assert_eq!(ok.output_bytes, 4);
    assert_eq!(ok.error, None);
    assert_eq!(ok.duration_ms, 15);

    let bad = trace.completed_input(false, "boom", 3);
    assert_eq!(bad.outcome, CompatibilityOutcome::Failure);
    assert_eq!(bad.error, Some("boom"));

    let failed = trace.failed_input("unsupported call", 1);
    assert_eq!(failed.outcome, CompatibilityOutcome::Failure);
    assert_eq!(failed.output_bytes, 16);
    assert_eq!(failed.error, Some("unsupported call"));
    assert_eq!(failed.tool_namespace, Some("mcp__fs"));
}

#[test]
fn invocation_drops_the_default_namespace() {
    let payload = ToolPayload::Function {
        arguments: "{}".to_string(),
    };
    let direct = tool_dispatch_invocation(
        "thread",
        "turn",
        "call-1",
        &ToolName::namespaced("functions", "shell"),
        &ToolCallSource::Direct,
        &payload,
    );
    assert_eq!(direct.tool_name, "shell");
    assert_eq!(direct.tool_namespace, None);
    assert_eq!(
        direct.requester,
        ToolDispatchRequester::Model {
            model_visible_call_id: "call-1".to_string()
        }
    );
    assert_eq!(
        direct.payload,
        ToolDispatchPayload::Function {
            arguments: "{}".to_string()
        }
    );

    let coded = tool_dispatch_invocation(
        "thread",
        "turn",
        "call-2",
        &ToolName::namespaced("mcp__fs", "read"),
        &code_mode(),
        &ToolPayload::Custom {
            input: "raw".to_string(),
        },
    );
    assert_eq!(coded.tool_namespace.as_deref(), Some("mcp__fs"));
    assert_eq!(
        coded.requester,
        ToolDispatchRequester::CodeCell {
            runtime_cell_id: "cell-1".to_string(),
            runtime_tool_call_id: "runtime-9".to_string()
        }
    );
    assert_eq!(
        coded.payload,
        ToolDispatchPayload::Custom {
            input: "raw".to_string()
        }
    );
    assert_eq!(coded.thread_id, "thread");
    assert_eq!(coded.codex_turn_id, "turn");
    assert_eq!(coded.tool_call_id, "call-2");
}
