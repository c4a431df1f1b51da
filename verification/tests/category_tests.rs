use codex_text_tools::category::classify;

#[test]
fn classifies_known_windows_and_provider_failures() {
    let cases = [
        ("windows sandbox: setup refresh failed", "windows.sandbox.setup"),
        ("cannot enforce split writable root sets directly", "windows.sandbox.split_roots"),
        ("provider does not support custom/freeform tools", "provider.tool_schema.custom_unsupported"),
        ("Failed to find expected lines in secret.rs: company source", "file.apply_patch.context_mismatch"),
        ("The first line of the patch must be '*** Begin Patch'", "file.apply_patch.missing_begin"),
        ("Unexpected line found in update hunk: import request", "file.apply_patch.hunk_format"),
        ("unresolved git merge conflict marker <<<<<<< HEAD", "file.merge_conflict"),
    ];
    for (error, expected) in cases {
        assert_eq!(classify("tool.dispatch", Some("apply_patch"), Some(error)).code, expected);
    }
}

#[test]
fn fixed_phases_and_missing_errors() {
    assert_eq!(classify("file.read.unchanged", None, Some("boom")).code, "file.read.unchanged");
    assert_eq!(classify("tool.dispatch", None, None).code, "operation.completed");
    assert_eq!(classify("model.tool_loop.x", None, Some("x")).code, "provider.output.tool_loop");
    assert_eq!(
        classify("tool.dispatch", Some("wait_agent"), Some("Invalid function arguments: invalid type: string, expected a sequence")).code,
        "multi_agent.arguments.targets_string"
    );
    assert_eq!(classify("tool.dispatch", Some("wait_agent"), Some("Timed out")).code, "multi_agent.wait.timeout");
    assert_eq!(classify("tool.dispatch", Some("shell"), Some("Timed out")).code, "operation.timeout");
    assert_eq!(classify("tool.dispatch", Some("apply_patch"), Some("weird")).code, "file.apply_patch.failed");
    let unknown = classify("tool.dispatch", Some("shell"), Some("weird"));
    assert_eq!(unknown.code, "unknown.failure");
    assert_eq!(unknown.summary, "Unclassified compatibility failure");
}
