use codex_text_tools::compatibility::{
    CompatibilityDiagnostics, CompatibilityDiagnosticsConfig, CompatibilityDiagnosticsContext,
    CompatibilityEvent, CompatibilityEventInput, CompatibilityMetrics, CompatibilityOutcome,
    EventEnvironment, TextIntegrityEventInput, ToolRepresentation,
};
use codex_text_tools::diagnostics_command::{parse_u64, parse_window};
use codex_text_tools::report::{
    check_report_size, checksums_text, display_bytes, instant_before, is_event_file_name,
    oldest_first, render_markdown, retention_cutoff, retention_split, CompatibilityDiagnosticsStatus,
    CompatibilityReport, RetentionSweep,
};

fn context() -> CompatibilityDiagnosticsContext {
    CompatibilityDiagnosticsContext {
        app_version: "0.153.4".to_string(),
        build_commit: Some("test".to_string()),
        provider: "third-party".to_string(),
        model: "test-model".to_string(),
        session_id: "session-secret".to_string(),
    }
}

fn environment(timestamp: &str) -> EventEnvironment {
    EventEnvironment {
        timestamp: timestamp.to_string(),
        process_id: 7,
        os: "windows".to_string(),
        arch: "x86_64".to_string(),
        resident_memory_bytes: Some(100),
        private_commit_bytes: None,
        peak_private_commit_bytes: Some(300),
        dropped_events: 1,
    }
}

fn failure(recorder: &CompatibilityDiagnostics, tool: &str, error: &str, at: &str) -> CompatibilityEvent {
    recorder
        .record(
            CompatibilityEventInput {
                phase: "tool.dispatch",
                outcome: CompatibilityOutcome::Failure,
                tool_name: Some(tool),
                tool_namespace: Some("company_secret_namespace"),
                representation: ToolRepresentation::Function,
                duration_ms: 3,
                input_bytes: 42,
                output_bytes: 120,
                error: Some(error),
            },
            &environment(at),
        )
        .expect("enabled recorder")
}

#[test]
fn configured_retention_cannot_exceed_the_privacy_limits() {
    let config = CompatibilityDiagnosticsConfig {
        enabled: true,
        directory: None,
        retention_days: Some(u16::MAX),
        max_total_mib: Some(u16::MAX),
    };

    assert_eq!(config.retention_days(), 30);
    assert_eq!(config.max_total_bytes(), 256 * 1024 * 1024);
}

#[test]
fn parses_bounded_report_windows() {
    assert_eq!(parse_window("24h").unwrap(), 86_400);
    assert_eq!(parse_window("7d").unwrap(), 604_800);
    assert!(parse_window("7days").is_err());
}

#[test]
fn report_windows_explain_their_errors() {
    assert_eq!(
        parse_window("7days"),
        Err("invalid diagnostics window: 7days".to_string())
    );
    assert_eq!(
        parse_window("7w"),
        Err("invalid diagnostics window: 7w; use Nh or Nd".to_string())
    );
    assert_eq!(
        parse_window("999999999999999999d"),
        Err("invalid diagnostics window: 999999999999999999d; use Nh or Nd".to_string())
    );
    assert_eq!(
        parse_window(""),
        Err("invalid diagnostics window: ".to_string())
    );
    assert_eq!(parse_window("+2h"), Ok(7200));
    assert_eq!(parse_u64("18446744073709551615"), Some(u64::MAX));
    assert_eq!(parse_u64("18446744073709551616"), None);
    assert_eq!(parse_u64("+"), None);
    assert_eq!(parse_u64("-1"), None);
}

#[test]
fn report_contains_only_bounded_structured_failure_data() {
    let recorder = CompatibilityDiagnostics::enabled(context());
    let first = failure(
        &recorder,
        "apply_patch",
        "Failed to find expected lines in C:\\secret\\source.rs: TOP_SECRET_SOURCE",
        "2024-05-01T10:00:00+00:00",
    );
    let second = failure(
        &recorder,
        "company_secret_tool",
        "invalid function arguments: INTERNAL_ARGUMENT",
        "2024-05-01T10:00:01+00:00",
    );

    let mut report = CompatibilityReport::new("2024-05-02T00:00:00+00:00".to_string());
    report.add_line(200, Some(first), (0, 0));
    report.add_line(200, Some(second), (0, 0));
    report.add_line(200, None, (0, 0));
    let (summary, samples) = report.into_parts();
    assert_eq!(summary.total_events, 2);
    assert_eq!(summary.failed_events, 2);
    assert_eq!(summary.sampled_failures, 2);
    assert_eq!(summary.malformed_lines, 1);
    assert_eq!(summary.dropped_events, 2);
    assert_eq!(summary.max_resident_memory_bytes, Some(100));
    assert_eq!(summary.max_private_commit_bytes, None);

    let text = format!("{samples:?}");
    assert!(!text.contains("TOP_SECRET_SOURCE"));
    assert!(!text.contains("C:\\\\secret"));
    assert!(!text.contains("session-secret"));
    assert!(!text.contains("company_secret_tool"));
    assert!(!text.contains("company_secret_namespace"));
    assert!(!text.contains("INTERNAL_ARGUMENT"));
    assert!(text.contains("external:"));
    assert!(text.contains("file.apply_patch.context_mismatch"));
}

#[test]
fn text_integrity_event_records_only_fingerprint_lengths_and_flags() {
    let recorder = CompatibilityDiagnostics::enabled(context());
    let secret_text = "INTERNAL_SECRET andтобы";
    let (analysis, event) = recorder.record_text_integrity(
        TextIntegrityEventInput {
            phase: "model.text_integrity.assistant.completed",
            outcome: CompatibilityOutcome::Failure,
            tool_name: None,
            tool_namespace: None,
            representation: ToolRepresentation::NoTool,
            text: secret_text,
        },
        &environment("2024-05-01T10:00:00+00:00"),
    );
    let event = event.expect("enabled recorder");
    let text = format!("{event:?}");
    assert!(!text.contains(secret_text));
    assert_eq!(analysis.byte_count, secret_text.len());
    assert_eq!(event.text_fingerprint.as_ref().map(String::len), Some(64));
    assert!(event
        .integrity_flags
        .iter()
        .any(|flag| flag == "mixed_alphabetic_scripts"));
    assert_eq!(event.category, "provider.output.text_integrity");
}

#[test]
fn samples_are_bounded_per_fingerprint_and_grouped_by_key() {
    let recorder = CompatibilityDiagnostics::enabled(context());
    let mut report = CompatibilityReport::new("now".to_string());
    for _ in 0..5 {
        let event = failure(&recorder, "shell", "same error", "2024-05-01T10:00:00Z");
        report.add_line(10, Some(event), (0, 0));
    }
    let other = failure(&recorder, "shell", "other error", "2024-05-01T10:00:00Z");
    report.add_line(10, Some(other), (0, 0));
    assert_eq!(report.sample_count, 4);
    assert_eq!(report.summary.failed_events, 6);
    let (summary, samples) = report.into_parts();
    assert_eq!(summary.sampled_failures, 4);
    assert_eq!(samples.len(), 4);
    assert_eq!(summary.categories.iter().map(|(_, n)| n).sum::<u64>(), 6);
    let keys = summary.categories.iter().map(|(k, _)| k.clone()).collect::<Vec<_>>();
    let mut sorted = keys.clone();
    sorted.sort();
    sorted.dedup();
    assert_eq!(keys, sorted);
}

#[test]
fn lines_are_filtered_by_size_timestamp_and_window() {
    let recorder = CompatibilityDiagnostics::enabled(context());
    let mut report = CompatibilityReport::new("now".to_string());
    let old = failure(&recorder, "shell", "e", "2020-01-01T00:00:00Z");
    report.add_line(10, Some(old), (1_600_000_000, 0));
    let bad_time = failure(&recorder, "shell", "e", "yesterday");
    report.add_line(10, Some(bad_time), (0, 0));
    let huge = failure(&recorder, "shell", "e", "2024-01-01T00:00:00Z");
    report.add_line(16385, Some(huge), (0, 0));
    assert_eq!(report.summary.total_events, 0);
    assert_eq!(report.summary.malformed_lines, 2);
    let recent = failure(&recorder, "shell", "e", "2024-01-01T00:00:00.5+01:00");
    report.add_line(10, Some(recent), (1_704_063_600, 499_999_999));
    assert_eq!(report.summary.total_events, 1);
    assert!(instant_before((1, 5), (2, 0)));
    assert!(!instant_before((2, 0), (1, 999_999_999)));
}

#[test]
fn markdown_summary_lists_totals_tokens_and_categories() {
    let mut report = CompatibilityReport::new("2024-05-02T00:00:00+00:00".to_string());
    let recorder = CompatibilityDiagnostics::enabled(context());
    let mut event = recorder
        .record_with_metrics(
            CompatibilityEventInput {
                phase: "model.request",
                outcome: CompatibilityOutcome::Success,
                tool_name: None,
                tool_namespace: None,
                representation: ToolRepresentation::NoTool,
                duration_ms: 1,
                input_bytes: 1,
                output_bytes: 1,
                error: None,
            },
            CompatibilityMetrics {
                history_bytes: 10,
                tool_schema_bytes: 20,
                instruction_bytes: 30,
                input_tokens: 40,
                cached_input_tokens: 50,
                output_tokens: 60,
                reasoning_output_tokens: 70,
            },
            &environment("2024-05-01T10:00:00Z"),
        )
        .expect("enabled");
    event.resident_memory_bytes = None;
    report.add_line(10, Some(event), (0, 0));
    let (summary, _) = report.into_parts();
    let markdown = render_markdown(&summary);
    assert!(markdown.starts_with(
        "# Codex compatibility diagnostics\n\nGenerated: 2024-05-02T00:00:00+00:00\n\nTotal events: 1\n\n"
    ));
    assert!(markdown.contains("Maximum resident memory: unavailable\n\n"));
    assert!(markdown.contains("Peak Windows private commit: 300\n\n"));
    assert!(markdown.contains("| History bytes | 10 |\n| Tool schema bytes | 20 |\n"));
    assert!(markdown.contains("| Reasoning output tokens | 70 |\n\n## Categories\n\n| Category | Count |\n|---|---:|\n"));
    assert!(markdown.ends_with(&format!("| `{}` | 1 |\n", summary.categories[0].0)));
    assert_eq!(display_bytes(Some(5)), "5");
    assert_eq!(display_bytes(None), "unavailable");
}

#[test]
fn checksums_and_size_limit() {
    let files = vec![
        ("a.txt".to_string(), b"abc".to_vec()),
        ("b.txt".to_string(), Vec::new()),
    ];
    assert_eq!(
        checksums_text(&files),
        "ba7816bf8f01cfea414140de5dae2223b00361a396177a9cb410ff61f20015ad  a.txt\n\
         e3b0c44298fc1c149afbf4c8996fb92427ae41e4649b934ca495991b7852b855  b.txt\n"
    );
    assert_eq!(checksums_text(&Vec::new()), "\n");
    assert!(check_report_size(&files).is_ok());
    let big = vec![
        ("x".to_string(), vec![0u8; 6 * 1024 * 1024]),
        ("y".to_string(), vec![0u8; 5 * 1024 * 1024]),
    ];
    assert_eq!(
        check_report_size(&big),
        Err("compatibility report exceeded the 10 MiB limit".to_string())
    );
}

#[test]
fn event_files_status_and_retention() {
    assert!(is_event_file_name("compat-1-2-3.jsonl"));
    assert!(!is_event_file_name(".jsonl"));
    assert!(!is_event_file_name("notes.json"));
    assert!(!is_event_file_name("jsonl"));
    assert!(is_event_file_name("a.b.jsonl"));

    let mut status = CompatibilityDiagnosticsStatus::new("C:\\diag".to_string());
    status.record_file(10, Some("2024-01-02T00:00:00Z".to_string()));
    status.record_file(u64::MAX, Some("2024-01-01T00:00:00Z".to_string()));
    status.record_file(5, None);
    assert_eq!(status.files, 3);
    assert_eq!(status.bytes, u64::MAX);
    assert_eq!(status.newest_event.as_deref(), Some("2024-01-02T00:00:00Z"));

    assert_eq!(retention_cutoff((1_000_000, 7), 1), (913_600, 7));
    assert_eq!(oldest_first(&vec![(5, 0), (1, 0), (5, 0), (3, 9)]), vec![1, 3, 0, 2]);

    let mut sweep = RetentionSweep::new(100, 40);
    assert!(sweep.wants_removal());
    sweep.removed(50);
    assert!(sweep.wants_removal());
    sweep.removed(60);
    assert_eq!(sweep.total, 0);
    assert!(!sweep.wants_removal());
}

#[test]
fn retention_splits_expired_files_from_the_rest_oldest_first() {
    let modified = vec![(500, 0), (100, 0), (300, 5), (300, 0), (900, 0)];
    let (expired, kept) = retention_split(&modified, (300, 1));
    assert_eq!(expired, vec![1, 3]);
    assert_eq!(kept, vec![2, 0, 4]);
    let (none_expired, all_kept) = retention_split(&modified, (0, 0));
    assert!(none_expired.is_empty());
    assert_eq!(all_kept.len(), 5);
}

#[test]
fn events_keep_names_only_as_builtins_or_pseudonyms() {
    let recorder = CompatibilityDiagnostics::enabled(context());
    let event = failure(&recorder, "company_secret_tool", "boom", "2024-05-01T10:00:00+00:00");
    let name = event.tool_name.expect("tool name");
    assert_eq!(name.len(), 25);
    assert!(name.starts_with("external:"));
    assert!(name[9..].chars().all(|c| c.is_ascii_hexdigit() && !c.is_ascii_uppercase()));
    let namespace = event.tool_namespace.expect("namespace");
    assert!(namespace.starts_with("external:"));
    assert_eq!(event.session_hash.len(), 64);
    assert_eq!(event.error_fingerprint.as_ref().map(String::len), Some(64));
    assert!(!format!("{:?}", event.error_summary).contains("boom"));

    let builtin = failure(&recorder, "apply_patch", "boom", "2024-05-01T10:00:00+00:00");
    assert_eq!(builtin.tool_name.as_deref(), Some("apply_patch"));
}

#[test]
fn recording_with_metrics_only_adds_the_metrics() {
    let recorder = CompatibilityDiagnostics::enabled(context());
    let input = || CompatibilityEventInput {
        phase: "model.request",
        outcome: CompatibilityOutcome::Success,
        tool_name: None,
        tool_namespace: None,
        representation: ToolRepresentation::NoTool,
        duration_ms: 9,
        input_bytes: 10,
        output_bytes: 20,
        error: None,
    };
    let metrics = CompatibilityMetrics {
        history_bytes: 1,
        tool_schema_bytes: 2,
        instruction_bytes: 3,
        input_tokens: 4,
        cached_input_tokens: 5,
        output_tokens: 6,
        reasoning_output_tokens: 7,
    };
    let env = environment("2024-05-01T10:00:00+00:00");
    let plain = recorder.record(input(), &env).expect("plain");
    let metered = recorder
        .record_with_metrics(input(), metrics.clone(), &env)
        .expect("metered");
    assert_eq!(plain.metrics, None);
    assert_eq!(metered.metrics, Some(metrics));
    let mut stripped = metered.clone();
    stripped.metrics = None;
    assert_eq!(format!("{stripped:?}"), format!("{plain:?}"));
}
