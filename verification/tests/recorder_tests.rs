use codex_text_tools::compatibility::{
    CompatibilityDiagnostics, CompatibilityDiagnosticsConfig, CompatibilityDiagnosticsContext, EventEnvironment,
};
use codex_text_tools::digest::fingerprint;
use codex_text_tools::recorder::{
    compatibility_diagnostics_status, event_file_name, flush_after, StatusEntry, recorder_directory, resource_sample_event, start_failure_message,
    EventFileState, StartStep,
};

fn context() -> CompatibilityDiagnosticsContext {
    CompatibilityDiagnosticsContext {
        app_version: "0.153.4".to_string(),
        build_commit: None,
        provider: "third-party".to_string(),
        model: "test-model".to_string(),
        session_id: "session-secret".to_string(),
    }
}

fn environment() -> EventEnvironment {
    EventEnvironment {
        timestamp: "2026-05-01T00:00:00Z".to_string(),
        process_id: 42,
        os: "linux".to_string(),
        arch: "aarch64".to_string(),
        resident_memory_bytes: Some(4096),
        private_commit_bytes: Some(8192),
        peak_private_commit_bytes: None,
        dropped_events: 3,
    }
}

#[test]
fn disabled_recorder_needs_no_directory() {
    let config = CompatibilityDiagnosticsConfig::default();
    assert_eq!(recorder_directory(&config), Ok(None));
}

#[test]
fn enabled_recorder_requires_a_directory() {
    let config = CompatibilityDiagnosticsConfig {
        enabled: true,
        ..Default::default()
    };
    assert_eq!(
        recorder_directory(&config),
        Err("compatibility diagnostics requires an absolute directory".to_string())
    );
    let config = CompatibilityDiagnosticsConfig {
        enabled: true,
        directory: Some("/tmp/diagnostics".to_string()),
        ..Default::default()
    };
    assert_eq!(
        recorder_directory(&config),
        Ok(Some("/tmp/diagnostics".to_string()))
    );
}

#[test]
fn start_failures_name_their_step() {
    assert_eq!(
        start_failure_message(StartStep::CreateDirectory, "denied"),
        "failed to create compatibility diagnostics directory: denied"
    );
    assert_eq!(
        start_failure_message(StartStep::CreateEventFile, "exists"),
        "failed to create compatibility diagnostics event file: exists"
    );
    assert_eq!(
        start_failure_message(StartStep::StartWriter, "no threads"),
        "failed to start compatibility diagnostics writer: no threads"
    );
}

#[test]
fn resource_samples_carry_only_host_measurements() {
    let event = resource_sample_event(&context(), &environment());
    assert_eq!(event.phase, "process.sample");
    assert_eq!(event.category, "process.resource_sample");
    assert_eq!(event.outcome, "success");
    assert_eq!(event.representation, "none");
    assert_eq!(event.process_id, 42);
    assert_eq!(event.resident_memory_bytes, Some(4096));
    assert_eq!(event.private_commit_bytes, Some(8192));
    assert_eq!(event.peak_private_commit_bytes, None);
    assert_eq!(event.dropped_events, 3);
    assert_eq!(event.session_hash, fingerprint("session-secret"));
    assert!(!event.session_hash.contains("session-secret"));
    assert!(event.tool_name.is_none());
    assert!(event.error_fingerprint.is_none());
    assert!(event.integrity_flags.is_empty());
    assert!(!flush_after(&event));
}

#[test]
fn failures_are_flushed_at_once() {
    let mut event = resource_sample_event(&context(), &environment());
    event.outcome = "failure".to_string();
    assert!(flush_after(&event));
}

#[test]
fn event_file_names_are_time_process_and_sequence() {
    assert_eq!(
        event_file_name(1_714_521_600_000, 42, 0),
        "compat-1714521600000-42-0.jsonl"
    );
    assert_eq!(
        event_file_name(u128::MAX, 7, 3),
        "compat-340282366920938463463374607431768211455-7-3.jsonl"
    );
}

#[test]
fn event_files_count_lines_and_rotate_when_full() {
    let mut state = EventFileState::new();
    assert_eq!(state.accept(99), Ok(()));
    assert_eq!(state.bytes_written, 100);
    assert!(!state.needs_rotation());
    assert_eq!(
        state.accept(16 * 1024 + 1),
        Err("compatibility event exceeded its size limit".to_string())
    );
    assert_eq!(state.bytes_written, 100);
    state.bytes_written = 8 * 1024 * 1024 - 10;
    assert_eq!(state.accept(9), Ok(()));
    assert!(state.needs_rotation());
    state.bytes_written = u64::MAX - 1;
    assert_eq!(state.accept(16), Ok(()));
    assert_eq!(state.bytes_written, u64::MAX);
}

#[test]
fn start_follows_the_configuration_and_preparation() {
    let disabled = CompatibilityDiagnostics::start(
        &CompatibilityDiagnosticsConfig::default(),
        context(),
        Ok(()),
    )
    .expect("disabled start");
    assert!(!disabled.is_enabled());

    let no_directory = CompatibilityDiagnosticsConfig {
        enabled: true,
        ..Default::default()
    };
    assert_eq!(
        CompatibilityDiagnostics::start(&no_directory, context(), Ok(())).err(),
        Some("compatibility diagnostics requires an absolute directory".to_string())
    );

    let config = CompatibilityDiagnosticsConfig {
        enabled: true,
        directory: Some("/tmp/d".to_string()),
        ..Default::default()
    };
    assert!(CompatibilityDiagnostics::start(&config, context(), Ok(()))
        .expect("enabled start")
        .is_enabled());
    assert_eq!(
        CompatibilityDiagnostics::start(
            &config,
            context(),
            Err((StartStep::CreateEventFile, "exists".to_string()))
        )
        .err(),
        Some("failed to create compatibility diagnostics event file: exists".to_string())
    );
}

#[test]
fn status_counts_only_event_files() {
    let entries = vec![
        StatusEntry {
            file_name: "compat-1-1-1.jsonl".to_string(),
            bytes: 10,
            modified: Some("2026-05-01T00:00:00+00:00".to_string()),
        },
        StatusEntry {
            file_name: "notes.txt".to_string(),
            bytes: 1000,
            modified: Some("2027-01-01T00:00:00+00:00".to_string()),
        },
        StatusEntry {
            file_name: "compat-2-1-2.jsonl".to_string(),
            bytes: 5,
            modified: Some("2026-06-01T00:00:00+00:00".to_string()),
        },
        StatusEntry {
            file_name: "compat-3-1-3.jsonl".to_string(),
            bytes: u64::MAX,
            modified: None,
        },
    ];
    let status = compatibility_diagnostics_status("/tmp/d".to_string(), entries);
    assert_eq!(status.directory, "/tmp/d");
    assert_eq!(status.files, 3);
    assert_eq!(status.bytes, u64::MAX);
    assert_eq!(
        status.newest_event.as_deref(),
        Some("2026-06-01T00:00:00+00:00")
    );
}

#[test]
fn byte_fingerprints_are_sha256_hex() {
    assert_eq!(
        codex_text_tools::digest::fingerprint_bytes(b""),
        "e3b0c44298fc1c149afbf4c8996fb92427ae41e4649b934ca495991b7852b855"
    );
    assert_eq!(
        codex_text_tools::digest::fingerprint_bytes(b"abc"),
        "ba7816bf8f01cfea414140de5dae2223b00361a396177a9cb410ff61f20015ad"
    );
    assert_eq!(
        fingerprint("abc"),
        codex_text_tools::digest::fingerprint_bytes(b"abc")
    );
}
