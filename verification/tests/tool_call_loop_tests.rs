use codex_text_tools::tool_call_loop::{
    fingerprint, identity, is_polling_tool, ToolCall, ToolCallLoopDecision, ToolCallLoopDetector,
    ToolCallLoopPolicy, ToolName, ToolPayload,
};

fn function_call(name: ToolName, arguments: &str) -> ToolCall {
    ToolCall {
        tool_name: name,
        call_id: "ignored-call-id".to_string(),
        payload: ToolPayload::Function {
            arguments: arguments.to_string(),
        },
    }
}

#[test]
fn protected_provider_rejects_third_identical_call_and_aborts_fourth() {
    let mut detector = ToolCallLoopDetector::new(ToolCallLoopPolicy::ProtectToolCalls);
    let call = function_call(ToolName::plain("exec_command"), r#"{"cmd":"echo loop"}"#);

    assert_eq!(detector.observe(&call), ToolCallLoopDecision::Allow);
    assert_eq!(detector.observe(&call), ToolCallLoopDecision::Allow);
    assert_eq!(
        detector.observe(&call),
        ToolCallLoopDecision::Reject { attempt: 3 }
    );
    assert_eq!(
        detector.observe(&call),
        ToolCallLoopDecision::Abort { attempt: 4 }
    );
}

#[test]
fn canonical_json_and_default_namespace_share_a_fingerprint() {
    let mut detector = ToolCallLoopDetector::new(ToolCallLoopPolicy::ProtectToolCalls);
    let first = function_call(ToolName::plain("tool"), r#"{"b":2,"a":1}"#);
    let second = function_call(
        ToolName::namespaced("functions", "tool"),
        r#"{ "a": 1, "b": 2 }"#,
    );

    assert_eq!(detector.observe(&first), ToolCallLoopDecision::Allow);
    assert_eq!(detector.observe(&second), ToolCallLoopDecision::Allow);
    assert_eq!(
        detector.observe(&first),
        ToolCallLoopDecision::Reject { attempt: 3 }
    );
}

#[test]
fn changed_arguments_reset_the_sequence() {
    let mut detector = ToolCallLoopDetector::new(ToolCallLoopPolicy::ProtectToolCalls);
    let first = function_call(ToolName::plain("exec_command"), r#"{"cmd":"one"}"#);
    let changed = function_call(ToolName::plain("exec_command"), r#"{"cmd":"two"}"#);

    assert_eq!(detector.observe(&first), ToolCallLoopDecision::Allow);
    assert_eq!(detector.observe(&first), ToolCallLoopDecision::Allow);
    assert_eq!(detector.observe(&changed), ToolCallLoopDecision::Allow);
    assert_eq!(detector.observe(&first), ToolCallLoopDecision::Allow);
}

#[test]
fn polling_tools_are_exempt() {
    let mut detector = ToolCallLoopDetector::new(ToolCallLoopPolicy::ProtectToolCalls);
    let calls = [
        function_call(ToolName::plain("wait"), r#"{"cell_id":"cell"}"#),
        function_call(ToolName::plain("write_stdin"), r#"{"session_id":1}"#),
        function_call(
            ToolName::namespaced("collaboration", "wait_agent"),
            r#"{"timeout_ms":30000}"#,
        ),
        function_call(
            ToolName::namespaced("multi_agent_v1", "wait_agent"),
            r#"{"targets":["agent"],"timeout_ms":30000}"#,
        ),
    ];

    for call in calls {
        for _ in 0..5 {
            assert_eq!(detector.observe(&call), ToolCallLoopDecision::Allow);
        }
    }
}

#[test]
fn disabled_policy_does_not_reject_repeated_calls() {
    let mut detector = ToolCallLoopDetector::new(ToolCallLoopPolicy::Disabled);
    let call = function_call(ToolName::plain("exec_command"), r#"{"cmd":"echo"}"#);

    for _ in 0..5 {
        assert_eq!(detector.observe(&call), ToolCallLoopDecision::Allow);
    }
}

#[test]
fn abort_attempt_keeps_counting_past_the_fourth_call() {
    let mut detector = ToolCallLoopDetector::new(ToolCallLoopPolicy::ProtectToolCalls);
    let call = function_call(ToolName::plain("exec_command"), r#"{"cmd":"x"}"#);
    for _ in 0..4 {
        detector.observe(&call);
    }
    assert_eq!(detector.observe(&call), ToolCallLoopDecision::Abort { attempt: 5 });
    assert_eq!(detector.consecutive_count, 5);
    detector.reset();
    assert_eq!(detector.observe(&call), ToolCallLoopDecision::Allow);
}

#[test]
fn polling_call_forgets_the_run() {
    let mut detector = ToolCallLoopDetector::new(ToolCallLoopPolicy::ProtectToolCalls);
    let call = function_call(ToolName::plain("exec_command"), r#"{"cmd":"x"}"#);
    let wait = function_call(ToolName::plain("wait"), "{}");
    detector.observe(&call);
    detector.observe(&call);
    assert_eq!(detector.observe(&wait), ToolCallLoopDecision::Allow);
    assert_eq!(detector.observe(&call), ToolCallLoopDecision::Allow);
    assert_eq!(detector.observe(&call), ToolCallLoopDecision::Allow);
    assert_eq!(
        detector.observe(&call),
        ToolCallLoopDecision::Reject { attempt: 3 }
    );
}

#[test]
fn wait_agent_outside_collaboration_namespaces_is_not_polling() {
    assert!(!is_polling_tool(&function_call(ToolName::plain("wait_agent"), "{}")));
    assert!(!is_polling_tool(&function_call(
        ToolName::namespaced("tools", "wait"),
        "{}"
    )));
    assert!(is_polling_tool(&function_call(
        ToolName::namespaced("", "wait"),
        "{}"
    )));
}

#[test]
fn identity_is_length_prefixed_and_tagged() {
    let call = ToolCall {
        tool_name: ToolName::plain("t"),
        call_id: "c".to_string(),
        payload: ToolPayload::Custom {
            input: "ab".to_string(),
        },
    };
    let mut expected = Vec::new();
    expected.extend_from_slice(&9u64.to_le_bytes());
    expected.extend_from_slice(b"functions");
    expected.extend_from_slice(&1u64.to_le_bytes());
    expected.extend_from_slice(b"t");
    expected.push(2);
    expected.extend_from_slice(&2u64.to_le_bytes());
    expected.extend_from_slice(b"ab");
    assert_eq!(identity(&call), expected);
    assert_eq!(fingerprint(&call).len(), 20);
}

#[test]
fn invalid_json_arguments_are_hashed_as_written() {
    let call = function_call(ToolName::plain("t"), "not json");
    let id = identity(&call);
    assert!(id.ends_with(b"not json"));
    let json = function_call(ToolName::plain("t"), r#"{ "a" : 1 }"#);
    assert!(identity(&json).ends_with(br#"{"a":1}"#));
}
