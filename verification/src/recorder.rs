//! The writer side of the compatibility recorder: where it may start, the
//! periodic resource sample, and the bookkeeping of its event files.
use vstd::prelude::*;

use crate::compatibility::{
    bounded, bounded_text, keeps_no_raw_text, opt_string_view, sat_add, CompatibilityDiagnostics,
    CompatibilityDiagnosticsConfig, CompatibilityDiagnosticsContext, CompatibilityEvent,
    EventEnvironment, MAX_EVENT_BYTES, MAX_FILE_BYTES, SCHEMA_VERSION,
};
use crate::report::{extension_of, is_event_file_name, newest_of, CompatibilityDiagnosticsStatus};
use crate::digest::{fingerprint, hex_lower, sha256_of};
use crate::text::{append_str, decimal, decimal_string, str_eq, utf8};

verus! {

broadcast use vstd::string::group_string_axioms;

/// Where an enabled recorder keeps its files: nothing for a disabled
/// configuration, the configured directory otherwise (which must be given).
pub fn recorder_directory(config: &CompatibilityDiagnosticsConfig) -> (r: Result<Option<String>, String>)
    ensures
        !config.enabled ==> r matches Ok(None),
        config.enabled && config.directory is None ==> (r matches Err(m) && m@
            == "compatibility diagnostics requires an absolute directory"@),
        config.enabled && config.directory is Some ==> (r matches Ok(Some(d)) && d@
            == config.directory->0@),
{
    if !config.enabled {
        return Ok(None);
    }
    match &config.directory {
        Some(d) => Ok(Some(d.clone())),
        None => Err("compatibility diagnostics requires an absolute directory".to_owned()),
    }
}

/// A step of starting the recorder that can fail.
#[derive(Clone, Copy, Debug, PartialEq, Eq)]
pub enum StartStep {
    CreateDirectory,
    CreateEventFile,
    StartWriter,
}

/// The message for a failed start step, with the error's text.
pub open spec fn start_failure(step: StartStep, error: Seq<char>) -> Seq<char> {
    match step {
        StartStep::CreateDirectory => "failed to create compatibility diagnostics directory: "@ + error,
        StartStep::CreateEventFile => "failed to create compatibility diagnostics event file: "@ + error,
        StartStep::StartWriter => "failed to start compatibility diagnostics writer: "@ + error,
    }
}

/// The message for a failed start step.
pub fn start_failure_message(step: StartStep, error: &str) -> (r: String)
    ensures
        r@ == start_failure(step, error@),
{
    let mut m = match step {
        StartStep::CreateDirectory => "failed to create compatibility diagnostics directory: ".to_owned(),
        StartStep::CreateEventFile => "failed to create compatibility diagnostics event file: ".to_owned(),
        StartStep::StartWriter => "failed to start compatibility diagnostics writer: ".to_owned(),
    };
    append_str(&mut m, error);
    m
}

impl CompatibilityDiagnostics {
    /// Starts a recorder for `config`, given how preparing it went: the
    /// directory, the first event file and the writer are prepared only where
    /// `recorder_directory` names a directory, and `prepared` is the first
    /// step that failed, with its error. A disabled configuration starts a
    /// recorder that records nothing.
    pub fn start(
        config: &CompatibilityDiagnosticsConfig,
        context: CompatibilityDiagnosticsContext,
        prepared: Result<(), (StartStep, String)>,
    ) -> (r: Result<Self, String>)
        ensures
            !config.enabled ==> (r matches Ok(d) && d.context is None),
            config.enabled && config.directory is None ==> (r matches Err(m) && m@
                == "compatibility diagnostics requires an absolute directory"@),
            config.enabled && config.directory is Some ==> match prepared {
                Ok(()) => r matches Ok(d) && d.context == Some(context),
                Err((step, e)) => r matches Err(m) && m@ == start_failure(step, e@),
            },
    {
        match recorder_directory(config) {
            Err(m) => Err(m),
            Ok(None) => Ok(CompatibilityDiagnostics { context: None }),
            Ok(Some(_)) => match prepared {
                Ok(()) => Ok(CompatibilityDiagnostics::enabled(context)),
                Err((step, e)) => Err(start_failure_message(step, e.as_str())),
            },
        }
    }
}

/// A directory entry as the status of the recorder's directory sees it.
pub struct StatusEntry {
    pub file_name: String,
    pub bytes: u64,
    /// The entry's modification time in RFC 3339 form, when known.
    pub modified: Option<String>,
}

/// The status of a directory with these entries: how many event files
/// (`.jsonl`) it holds, their total size (saturating) and the latest
/// modification time among them.
pub open spec fn status_of(entries: Seq<StatusEntry>) -> (nat, u64, Option<String>)
    decreases entries.len(),
{
    if entries.len() == 0 {
        (0, 0, None)
    } else {
        let (files, bytes, newest) = status_of(entries.drop_last());
        let e = entries.last();
        if extension_of(e.file_name@) == Some("jsonl"@) {
            (
                files + 1,
                sat_add(bytes, e.bytes),
                match e.modified {
                    Some(m) => newest_of(newest, m),
                    None => newest,
                },
            )
        } else {
            (files, bytes, newest)
        }
    }
}

proof fn lemma_status_files_bounded(entries: Seq<StatusEntry>)
    ensures
        status_of(entries).0 <= entries.len(),
    decreases entries.len(),
{
    if entries.len() > 0 {
        lemma_status_files_bounded(entries.drop_last());
    }
}

/// The status of the recorder's directory, from a listing of its entries.
pub fn compatibility_diagnostics_status(directory: String, entries: Vec<StatusEntry>) -> (r: CompatibilityDiagnosticsStatus)
    ensures
        r.directory == directory,
        r.files == status_of(entries@).0,
        r.bytes == status_of(entries@).1,
        r.newest_event == status_of(entries@).2,
{
    let mut status = CompatibilityDiagnosticsStatus::new(directory);
    let mut i: usize = 0;
    let n = entries.len();
    let mut rest = entries;
    let ghost all = rest@;
    while i < n
        invariant
            n == all.len(),
            i <= n,
            rest@ == all.subrange(i as int, n as int),
            status.directory == directory,
            status.files == status_of(all.subrange(0, i as int)).0,
            status.bytes == status_of(all.subrange(0, i as int)).1,
            status.newest_event == status_of(all.subrange(0, i as int)).2,
        decreases n - i,
    {
        proof {
            lemma_status_files_bounded(all.subrange(0, i as int));
            assert(all.subrange(0, i as int + 1).drop_last() =~= all.subrange(0, i as int));
        }
        let entry = rest.remove(0);
        if is_event_file_name(entry.file_name.as_str()) {
            status.record_file(entry.bytes, entry.modified);
        }
        i = i + 1;
        assert(rest@ =~= all.subrange(i as int, n as int));
    }
    assert(all.subrange(0, n as int) =~= all);
    status
}

/// The periodic resource sample: the session's bounded identity, the host's
/// measurements, and nothing about any operation.
pub fn resource_sample_event(ctx: &CompatibilityDiagnosticsContext, env: &EventEnvironment) -> (ev: CompatibilityEvent)
    ensures
        ev.schema_version == SCHEMA_VERSION,
        ev.timestamp == env.timestamp,
        ev.process_id == env.process_id,
        ev.app_version@ == bounded_text(ctx.app_version@, 64),
        opt_string_view(ev.build_commit) == match ctx.build_commit {
            Some(c) => Some(bounded_text(c@, 64)),
            None => None,
        },
        ev.os == env.os,
        ev.arch == env.arch,
        ev.provider@ == bounded_text(ctx.provider@, 128),
        ev.model@ == bounded_text(ctx.model@, 128),
        ev.session_hash@ == hex_lower(sha256_of(utf8(ctx.session_id@))),
        ev.phase@ == "process.sample"@,
        ev.category@ == "process.resource_sample"@,
        ev.outcome@ == "success"@,
        ev.tool_name is None,
        ev.tool_namespace is None,
        ev.representation@ == "none"@,
        ev.duration_ms == 0,
        ev.input_bytes == 0,
        ev.output_bytes == 0,
        ev.metrics is None,
        ev.text_fingerprint is None,
        ev.text_char_count is None,
        ev.integrity_flags@.len() == 0,
        ev.error_fingerprint is None,
        ev.error_summary is None,
        ev.resident_memory_bytes == env.resident_memory_bytes,
        ev.private_commit_bytes == env.private_commit_bytes,
        ev.peak_private_commit_bytes == env.peak_private_commit_bytes,
        ev.dropped_events == env.dropped_events,
        keeps_no_raw_text(ev),
{
    CompatibilityEvent {
        schema_version: SCHEMA_VERSION,
        timestamp: env.timestamp.clone(),
        process_id: env.process_id,
        app_version: bounded(ctx.app_version.as_str(), 64),
        build_commit: match &ctx.build_commit {
            Some(c) => Some(bounded(c.as_str(), 64)),
            None => None,
        },
        os: env.os.clone(),
        arch: env.arch.clone(),
        provider: bounded(ctx.provider.as_str(), 128),
        model: bounded(ctx.model.as_str(), 128),
        session_hash: fingerprint(ctx.session_id.as_str()),
        phase: "process.sample".to_owned(),
        category: "process.resource_sample".to_owned(),
        outcome: "success".to_owned(),
        tool_name: None,
        tool_namespace: None,
        representation: "none".to_owned(),
        duration_ms: 0,
        input_bytes: 0,
        output_bytes: 0,
        metrics: None,
        text_fingerprint: None,
        text_char_count: None,
        integrity_flags: Vec::new(),
        error_fingerprint: None,
        error_summary: None,
        resident_memory_bytes: env.resident_memory_bytes,
        private_commit_bytes: env.private_commit_bytes,
        peak_private_commit_bytes: env.peak_private_commit_bytes,
        dropped_events: env.dropped_events,
    }
}

/// A failure is written through at once; a success may wait in the buffer.
pub fn flush_after(event: &CompatibilityEvent) -> (r: bool)
    ensures
        r == (event.outcome@ != "success"@),
{
    !str_eq(event.outcome.as_str(), "success")
}

/// The decimal digits of a 128-bit number.
fn decimal_string_wide(n: u128) -> (s: String)
    ensures
        s@ == decimal(n as nat),
    decreases n,
{
    if n <= 18446744073709551615u128 {
        return decimal_string(n as u64);
    }
    let high = n / 10;
    let low = (n % 10) as u64;
    let mut s = decimal_string_wide(high);
    append_str(&mut s, decimal_string(low).as_str());
    proof {
        assert(decimal(low as nat) == seq![crate::text::digit_char(low as nat)]);
        assert(decimal(n as nat) == decimal((n / 10) as nat).push(crate::text::digit_char((n % 10) as nat)));
        assert(decimal(n as nat) =~= decimal(high as nat) + decimal(low as nat));
    }
    s
}

/// The name of a new event file: its creation time in milliseconds, the
/// process id and a sequence number.
pub fn event_file_name(millis: u128, process_id: u32, sequence: u64) -> (r: String)
    ensures
        r@ == "compat-"@ + decimal(millis as nat) + "-"@ + decimal(process_id as nat) + "-"@ + decimal(
            sequence as nat,
        ) + ".jsonl"@,
{
    let mut r = "compat-".to_owned();
    append_str(&mut r, decimal_string_wide(millis).as_str());
    append_str(&mut r, "-");
    append_str(&mut r, decimal_string(process_id as u64).as_str());
    append_str(&mut r, "-");
    append_str(&mut r, decimal_string(sequence).as_str());
    append_str(&mut r, ".jsonl");
    r
}

/// How much has been written to the current event file.
pub struct EventFileState {
    pub bytes_written: u64,
}

impl EventFileState {
    /// A new, empty event file.
    pub fn new() -> (r: Self)
        ensures
            r.bytes_written == 0,
    {
        EventFileState { bytes_written: 0 }
    }

    /// Takes an encoded event of `encoded_len` bytes: one over 16 KiB is
    /// refused; otherwise it and its line feed are counted (saturating).
    pub fn accept(&mut self, encoded_len: usize) -> (r: Result<(), String>)
        ensures
            encoded_len > MAX_EVENT_BYTES ==> (r matches Err(m) && m@
                == "compatibility event exceeded its size limit"@) && final(self).bytes_written
                == old(self).bytes_written,
            encoded_len <= MAX_EVENT_BYTES ==> r is Ok && final(self).bytes_written == if old(
                self,
            ).bytes_written + encoded_len + 1 <= u64::MAX {
                (old(self).bytes_written + encoded_len + 1) as u64
            } else {
                u64::MAX
            },
    {
        if encoded_len > MAX_EVENT_BYTES {
            return Err("compatibility event exceeded its size limit".to_owned());
        }
        let line = (encoded_len + 1) as u64;
        self.bytes_written = if self.bytes_written <= u64::MAX - line {
            self.bytes_written + line
        } else {
            u64::MAX
        };
        Ok(())
    }

    /// Whether the file is full and a new one should be started.
    pub fn needs_rotation(&self) -> (r: bool)
        ensures
            r == (self.bytes_written >= MAX_FILE_BYTES),
    {
        self.bytes_written >= MAX_FILE_BYTES
    }
}

} // verus!
