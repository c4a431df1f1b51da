//! Privacy-safe compatibility diagnostics: configuration limits, the content
//! free event that is recorded for an observation, and tool identities that
//! never reveal external names.
use vstd::prelude::*;
use vstd::string::StringSliceAdditionalSpecFns;
use vstd::utf8::{decode_utf8, encode_utf8_decode_utf8, encode_utf8_valid_utf8};

use crate::category::{
    category_code, category_of, category_summary, classify, opt_bytes, opt_chars, FailureCategory,
};
use crate::digest::{
    fingerprint, hex_lower, is_hex_text, salted_fingerprint, salted_input, sha256_of,
};
use crate::text::{
    append_str, chars_of, floor_boundary, floor_char_boundary, str_eq, str_prefix,
    string_from_chars, utf8,
};
use crate::text_integrity::{
    analyze_text_integrity, flag_name, integrity_flags, TextIntegrityAnalysis, TextIntegrityFlag,
};

verus! {

broadcast use vstd::string::group_string_axioms;

pub const SCHEMA_VERSION: u16 = 2;

pub const DEFAULT_RETENTION_DAYS: u16 = 30;

pub const DEFAULT_MAX_TOTAL_MIB: u16 = 256;

pub const MAX_EVENT_BYTES: usize = 16384;

pub const MAX_ERROR_CLASSIFICATION_BYTES: usize = 16384;

pub const MAX_FILE_BYTES: u64 = 8388608;

pub const MAX_REPORT_BYTES: usize = 10485760;

pub const MAX_SAMPLES_PER_FINGERPRINT: usize = 3;

pub const MAX_REPORT_SAMPLES: usize = 512;

/// `v` limited to `[lo, hi]`.
pub open spec fn clamp(v: int, lo: int, hi: int) -> int {
    if v < lo {
        lo
    } else if v > hi {
        hi
    } else {
        v
    }
}

/// User configuration for privacy-safe local compatibility diagnostics.
#[derive(Clone, Debug, Default, PartialEq, Eq)]
pub struct CompatibilityDiagnosticsConfig {
    pub enabled: bool,
    pub directory: Option<String>,
    pub retention_days: Option<u16>,
    pub max_total_mib: Option<u16>,
}

impl CompatibilityDiagnosticsConfig {
    /// The retention in days: the configured value (30 when absent) limited
    /// to 1..=30.
    pub fn retention_days(&self) -> (r: u16)
        ensures
            r == clamp(
                match self.retention_days {
                    Some(d) => d as int,
                    None => 30,
                },
                1,
                30,
            ),
    {
        let days = match self.retention_days {
            Some(d) => d,
            None => DEFAULT_RETENTION_DAYS,
        };
        if days < 1 {
            1
        } else if days > DEFAULT_RETENTION_DAYS {
            DEFAULT_RETENTION_DAYS
        } else {
            days
        }
    }

    /// The storage budget in bytes: the configured MiB (256 when absent)
    /// limited to 1..=256.
    pub fn max_total_bytes(&self) -> (r: u64)
        ensures
            r == clamp(
                match self.max_total_mib {
                    Some(m) => m as int,
                    None => 256,
                },
                1,
                256,
            ) * 1048576,
    {
        let mib = match self.max_total_mib {
            Some(m) => m,
            None => DEFAULT_MAX_TOTAL_MIB,
        };
        let limited: u16 = if mib < 1 {
            1
        } else if mib > DEFAULT_MAX_TOTAL_MIB {
            DEFAULT_MAX_TOTAL_MIB
        } else {
            mib
        };
        (limited as u64) * 1048576
    }
}

/// Session identity retained without endpoint or credential data.
#[derive(Clone, Debug)]
pub struct CompatibilityDiagnosticsContext {
    pub app_version: String,
    pub build_commit: Option<String>,
    pub provider: String,
    pub model: String,
    pub session_id: String,
}

/// How an observed operation ended.
#[derive(Clone, Copy, Debug, Eq, PartialEq, Structural)]
pub enum CompatibilityOutcome {
    Success,
    Failure,
    Rejected,
    Timeout,
    Cancelled,
}

pub open spec fn outcome_name(o: CompatibilityOutcome) -> &'static str {
    match o {
        CompatibilityOutcome::Success => "success",
        CompatibilityOutcome::Failure => "failure",
        CompatibilityOutcome::Rejected => "rejected",
        CompatibilityOutcome::Timeout => "timeout",
        CompatibilityOutcome::Cancelled => "cancelled",
    }
}

impl CompatibilityOutcome {
    /// The stable name of the outcome.
    pub fn as_str(self) -> (s: &'static str)
        ensures
            s == outcome_name(self),
    {
        match self {
            CompatibilityOutcome::Success => "success",
            CompatibilityOutcome::Failure => "failure",
            CompatibilityOutcome::Rejected => "rejected",
            CompatibilityOutcome::Timeout => "timeout",
            CompatibilityOutcome::Cancelled => "cancelled",
        }
    }
}

/// How a tool was presented to the model.
#[derive(Clone, Copy, Debug, Eq, PartialEq, Structural)]
pub enum ToolRepresentation {
    Function,
    Custom,
    ToolSearch,
    CodeMode,
    NoTool,
}

pub open spec fn representation_name(r: ToolRepresentation) -> &'static str {
    match r {
        ToolRepresentation::Function => "function",
        ToolRepresentation::Custom => "custom",
        ToolRepresentation::ToolSearch => "tool_search",
        ToolRepresentation::CodeMode => "code_mode",
        ToolRepresentation::NoTool => "none",
    }
}

impl ToolRepresentation {
    /// The stable name of the representation.
    pub fn as_str(self) -> (s: &'static str)
        ensures
            s == representation_name(self),
    {
        match self {
            ToolRepresentation::Function => "function",
            ToolRepresentation::Custom => "custom",
            ToolRepresentation::ToolSearch => "tool_search",
            ToolRepresentation::CodeMode => "code_mode",
            ToolRepresentation::NoTool => "none",
        }
    }
}

/// Content-free observation submitted at a compatibility-sensitive boundary.
pub struct CompatibilityEventInput<'a> {
    pub phase: &'a str,
    pub outcome: CompatibilityOutcome,
    pub tool_name: Option<&'a str>,
    pub tool_namespace: Option<&'a str>,
    pub representation: ToolRepresentation,
    /// The duration of the operation in milliseconds.
    pub duration_ms: u128,
    pub input_bytes: usize,
    pub output_bytes: usize,
    pub error: Option<&'a str>,
}

/// `a + b`, or `u64::MAX` when that overflows.
pub open spec fn sat_add(a: u64, b: u64) -> u64 {
    if a + b <= u64::MAX {
        (a + b) as u64
    } else {
        u64::MAX
    }
}

fn saturating_add(a: u64, b: u64) -> (r: u64)
    ensures
        r == sat_add(a, b),
{
    if a <= u64::MAX - b {
        a + b
    } else {
        u64::MAX
    }
}

/// Size and token counters of a request.
#[derive(Clone, Debug, PartialEq, Eq)]
pub struct CompatibilityMetrics {
    pub history_bytes: u64,
    pub tool_schema_bytes: u64,
    pub instruction_bytes: u64,
    pub input_tokens: u64,
    pub cached_input_tokens: u64,
    pub output_tokens: u64,
    pub reasoning_output_tokens: u64,
}

/// Every counter of `a` plus the same counter of `b`, saturating.
pub open spec fn metrics_sum(a: CompatibilityMetrics, b: CompatibilityMetrics) -> CompatibilityMetrics {
    CompatibilityMetrics {
        history_bytes: sat_add(a.history_bytes, b.history_bytes),
        tool_schema_bytes: sat_add(a.tool_schema_bytes, b.tool_schema_bytes),
        instruction_bytes: sat_add(a.instruction_bytes, b.instruction_bytes),
        input_tokens: sat_add(a.input_tokens, b.input_tokens),
        cached_input_tokens: sat_add(a.cached_input_tokens, b.cached_input_tokens),
        output_tokens: sat_add(a.output_tokens, b.output_tokens),
        reasoning_output_tokens: sat_add(a.reasoning_output_tokens, b.reasoning_output_tokens),
    }
}

pub open spec fn zero_metrics() -> CompatibilityMetrics {
    CompatibilityMetrics {
        history_bytes: 0,
        tool_schema_bytes: 0,
        instruction_bytes: 0,
        input_tokens: 0,
        cached_input_tokens: 0,
        output_tokens: 0,
        reasoning_output_tokens: 0,
    }
}

impl Default for CompatibilityMetrics {
    fn default() -> (r: Self)
        ensures
            r == zero_metrics(),
    {
        CompatibilityMetrics {
            history_bytes: 0,
            tool_schema_bytes: 0,
            instruction_bytes: 0,
            input_tokens: 0,
            cached_input_tokens: 0,
            output_tokens: 0,
            reasoning_output_tokens: 0,
        }
    }
}

impl CompatibilityMetrics {
    /// Adds every counter of `other` to this one, saturating at `u64::MAX`.
    pub fn add_assign(&mut self, other: &Self)
        ensures
            *final(self) == metrics_sum(*old(self), *other),
    {
        self.history_bytes = saturating_add(self.history_bytes, other.history_bytes);
        self.tool_schema_bytes = saturating_add(self.tool_schema_bytes, other.tool_schema_bytes);
        self.instruction_bytes = saturating_add(self.instruction_bytes, other.instruction_bytes);
        self.input_tokens = saturating_add(self.input_tokens, other.input_tokens);
        self.cached_input_tokens = saturating_add(
            self.cached_input_tokens,
            other.cached_input_tokens,
        );
        self.output_tokens = saturating_add(self.output_tokens, other.output_tokens);
        self.reasoning_output_tokens = saturating_add(
            self.reasoning_output_tokens,
            other.reasoning_output_tokens,
        );
    }
}

/// Privacy-safe text observation. Only the text's length, a session-salted
/// fingerprint and its anomaly flags are recorded.
pub struct TextIntegrityEventInput<'a> {
    pub phase: &'a str,
    pub outcome: CompatibilityOutcome,
    pub tool_name: Option<&'a str>,
    pub tool_namespace: Option<&'a str>,
    pub representation: ToolRepresentation,
    pub text: &'a str,
}

/// What the host supplies for an event: the time, the process and the
/// platform, and the number of events that could not be queued.
#[derive(Clone, Debug)]
pub struct EventEnvironment {
    pub timestamp: String,
    pub process_id: u32,
    pub os: String,
    pub arch: String,
    pub resident_memory_bytes: Option<u64>,
    pub private_commit_bytes: Option<u64>,
    pub peak_private_commit_bytes: Option<u64>,
    pub dropped_events: u64,
}

/// One recorded compatibility event. It holds no prompt, source, argument or
/// error text: only bounded identities, categories, sizes and fingerprints.
#[derive(Clone, Debug)]
pub struct CompatibilityEvent {
    pub schema_version: u16,
    pub timestamp: String,
    pub process_id: u32,
    pub app_version: String,
    pub build_commit: Option<String>,
    pub os: String,
    pub arch: String,
    pub provider: String,
    pub model: String,
    pub session_hash: String,
    pub phase: String,
    pub category: String,
    pub outcome: String,
    pub tool_name: Option<String>,
    pub tool_namespace: Option<String>,
    pub representation: String,
    pub duration_ms: u64,
    pub input_bytes: usize,
    pub output_bytes: usize,
    pub metrics: Option<CompatibilityMetrics>,
    pub text_fingerprint: Option<String>,
    pub text_char_count: Option<usize>,
    pub integrity_flags: Vec<String>,
    pub error_fingerprint: Option<String>,
    pub error_summary: Option<String>,
    pub resident_memory_bytes: Option<u64>,
    pub private_commit_bytes: Option<u64>,
    pub peak_private_commit_bytes: Option<u64>,
    pub dropped_events: u64,
}

/// The text limited to its longest prefix of at most `max_bytes` UTF-8 bytes
/// that ends at a character boundary.
pub open spec fn bounded_text(value: Seq<char>, max_bytes: int) -> Seq<char> {
    let b = utf8(value);
    if b.len() <= max_bytes {
        value
    } else {
        decode_utf8(b.take(floor_boundary(b, max_bytes)))
    }
}

/// Limits a text to `max_bytes` bytes without splitting a character.
pub fn bounded(value: &str, max_bytes: usize) -> (r: String)
    ensures
        r@ == bounded_text(value@, max_bytes as int),
        utf8(r@).len() <= max_bytes || utf8(r@) == value.spec_bytes(),
{
    let n = value.as_bytes().len();
    if n <= max_bytes {
        return value.to_owned();
    }
    let end = floor_char_boundary(value, max_bytes);
    let head = str_prefix(value, end);
    proof {
        encode_utf8_valid_utf8(value@);
        crate::text::lemma_floor_boundary(value.spec_bytes(), max_bytes as int);
        assert(value.spec_bytes().take(end as int) =~= value.spec_bytes().subrange(0, end as int));
        encode_utf8_decode_utf8(head@);
    }
    head.to_owned()
}

/// The tools whose names are recorded as they are.
pub open spec fn is_builtin_tool(v: Seq<char>) -> bool {
    ||| v == "apply_patch"@
    ||| v == "edit_file"@
    ||| v == "exec"@
    ||| v == "exec_command"@
    ||| v == "glob_files"@
    ||| v == "grep_files"@
    ||| v == "followup_task"@
    ||| v == "interrupt_agent"@
    ||| v == "list_agents"@
    ||| v == "read_file"@
    ||| v == "send_message"@
    ||| v == "shell"@
    ||| v == "spawn_agent"@
    ||| v == "wait_agent"@
    ||| v == "write_file"@
    ||| v == "write_stdin"@
}

/// The pseudonym of an external name: `external:` and the first 16 digits
/// of its SHA-256.
pub open spec fn external_name(v: &str) -> Seq<char> {
    "external:"@ + hex_lower(sha256_of(v.spec_bytes())).take(16)
}

/// A pseudonym: `external:` and sixteen lower-case hexadecimal digits.
pub open spec fn is_pseudonym(t: Seq<char>) -> bool {
    &&& t.len() == 25
    &&& t.take(9) == "external:"@
    &&& is_hex_text(t.skip(9))
}

/// A recorded event keeps no text of the operation it observed: the session
/// and the error only as SHA-256 fingerprints, the error's description only as
/// a fixed category summary, and a tool name or namespace outside the
/// built-in ones only as a pseudonym.
pub open spec fn keeps_no_raw_text(ev: CompatibilityEvent) -> bool {
    &&& ev.session_hash@.len() == 64
    &&& is_hex_text(ev.session_hash@)
    &&& ev.error_fingerprint matches Some(f) ==> f@.len() == 64 && is_hex_text(f@)
    &&& ev.error_summary matches Some(m) ==> exists|c: FailureCategory| m@ == (#[trigger] category_summary(c))@
    &&& ev.tool_name matches Some(t) ==> is_builtin_tool(t@) || is_pseudonym(t@)
    &&& ev.tool_namespace matches Some(n) ==> is_builtin_namespace(n@) || is_pseudonym(n@)
}

/// A built-in namespace.
pub open spec fn is_builtin_namespace(t: Seq<char>) -> bool {
    t == "functions"@ || t == "collaboration"@ || t == "multi_agent_v1"@
}

fn external_pseudonym(value: &str) -> (r: String)
    ensures
        r@ == external_name(value),
        is_pseudonym(r@),
{
    let fp = fingerprint(value);
    let mut cs = chars_of(fp.as_str());
    proof {
        crate::digest::lemma_hex_lower_len(sha256_of(value.spec_bytes()));
    }
    assert(cs@ == hex_lower(sha256_of(value.spec_bytes())));
    assert(cs@.len() == 64);
    cs.truncate(16);
    assert(cs@ =~= hex_lower(sha256_of(value.spec_bytes())).take(16));
    let short = string_from_chars(cs.as_slice());
    let mut out = "external:".to_owned();
    append_str(&mut out, short.as_str());
    proof {
        reveal_strlit("external:");
        assert(out@.take(9) =~= "external:"@);
        assert(out@.skip(9) =~= short@);
        assert forall|i: int| 0 <= i < short@.len() implies crate::digest::is_hex_char(#[trigger] short@[i]) by {
            assert(short@[i] == fp@[i]);
        }
    }
    out
}

fn is_builtin(value: &str) -> (r: bool)
    ensures
        r == is_builtin_tool(value@),
{
    str_eq(value, "apply_patch") || str_eq(value, "edit_file") || str_eq(value, "exec") || str_eq(
        value,
        "exec_command",
    ) || str_eq(value, "glob_files") || str_eq(value, "grep_files") || str_eq(
        value,
        "followup_task",
    ) || str_eq(value, "interrupt_agent") || str_eq(value, "list_agents") || str_eq(
        value,
        "read_file",
    ) || str_eq(value, "send_message") || str_eq(value, "shell") || str_eq(value, "spawn_agent")
        || str_eq(value, "wait_agent") || str_eq(value, "write_file") || str_eq(
        value,
        "write_stdin",
    )
}

/// The recorded name of a tool.
pub open spec fn safe_tool_name_of(v: &str) -> Seq<char> {
    if is_builtin_tool(v@) {
        v@
    } else {
        external_name(v)
    }
}

/// A built-in tool's name, or a pseudonym for any other tool.
pub fn safe_tool_name(value: &str) -> (r: String)
    ensures
        r@ == safe_tool_name_of(value),
        is_builtin_tool(r@) || is_pseudonym(r@),
{
    if is_builtin(value) {
        value.to_owned()
    } else {
        external_pseudonym(value)
    }
}

/// The recorded namespace of a tool.
pub open spec fn safe_namespace_of(v: &str) -> Seq<char> {
    if v@.len() == 0 {
        "functions"@
    } else if v@ == "functions"@ || v@ == "collaboration"@ || v@ == "multi_agent_v1"@ {
        v@
    } else {
        external_name(v)
    }
}

/// A built-in namespace (the empty one is `functions`), or a pseudonym for
/// any other namespace.
pub fn safe_namespace(value: &str) -> (r: String)
    ensures
        r@ == safe_namespace_of(value),
        is_builtin_namespace(r@) || is_pseudonym(r@),
{
    proof {
        crate::text::lemma_encode_len_at_least(value@);
    }
    if value.as_bytes().len() == 0 {
        "functions".to_owned()
    } else if str_eq(value, "functions") || str_eq(value, "collaboration") || str_eq(
        value,
        "multi_agent_v1",
    ) {
        value.to_owned()
    } else {
        external_pseudonym(value)
    }
}

/// The error of an input, unless it is empty.
pub open spec fn reported_error<'a>(error: Option<&'a str>) -> Option<&'a str> {
    match error {
        Some(e) => if e@.len() > 0 {
            Some(e)
        } else {
            None
        },
        None => None,
    }
}

/// The category of an input: its error, limited to 16 KiB, is classified.
pub open spec fn input_category(input: CompatibilityEventInput) -> FailureCategory {
    category_of(
        input.phase,
        opt_chars(input.tool_name),
        match reported_error(input.error) {
            Some(e) => Some(utf8(bounded_text(e@, MAX_ERROR_CLASSIFICATION_BYTES as int))),
            None => None,
        },
    )
}

pub open spec fn opt_string_view(s: Option<String>) -> Option<Seq<char>> {
    match s {
        Some(t) => Some(t@),
        None => None,
    }
}

/// `ev` is the event recorded for `input` in session `ctx` on host `env`,
/// with the given text observation and metrics.
pub open spec fn is_recorded_event(
    ctx: CompatibilityDiagnosticsContext,
    input: CompatibilityEventInput,
    text_integrity: Option<(Seq<TextIntegrityFlag>, usize, Seq<char>)>,
    metrics: Option<CompatibilityMetrics>,
    env: EventEnvironment,
    ev: CompatibilityEvent,
) -> bool {
    let category = input_category(input);
    let error = reported_error(input.error);
    &&& ev.schema_version == SCHEMA_VERSION
    &&& ev.timestamp == env.timestamp
    &&& ev.process_id == env.process_id
    &&& ev.app_version@ == bounded_text(ctx.app_version@, 64)
    &&& opt_string_view(ev.build_commit) == match ctx.build_commit {
        Some(c) => Some(bounded_text(c@, 64)),
        None => None,
    }
    &&& ev.os == env.os
    &&& ev.arch == env.arch
    &&& ev.provider@ == bounded_text(ctx.provider@, 128)
    &&& ev.model@ == bounded_text(ctx.model@, 128)
    &&& ev.session_hash@ == hex_lower(sha256_of(utf8(ctx.session_id@)))
    &&& ev.phase@ == bounded_text(input.phase@, 96)
    &&& ev.category@ == category_code(category)@
    &&& ev.outcome@ == outcome_name(input.outcome)@
    &&& opt_string_view(ev.tool_name) == match input.tool_name {
        Some(t) => Some(safe_tool_name_of(t)),
        None => None,
    }
    &&& opt_string_view(ev.tool_namespace) == match input.tool_namespace {
        Some(t) => Some(safe_namespace_of(t)),
        None => None,
    }
    &&& ev.representation@ == representation_name(input.representation)@
    &&& ev.duration_ms == (if input.duration_ms <= u64::MAX as u128 {
        input.duration_ms as u64
    } else {
        u64::MAX
    })
    &&& ev.input_bytes == input.input_bytes
    &&& ev.output_bytes == input.output_bytes
    &&& ev.metrics == metrics
    &&& opt_string_view(ev.text_fingerprint) == match text_integrity {
        Some((_, _, f)) => Some(f),
        None => None,
    }
    &&& ev.text_char_count == match text_integrity {
        Some((_, c, _)) => Some(c),
        None => None,
    }
    &&& ev.integrity_flags@.len() == match text_integrity {
        Some((flags, _, _)) => flags.len(),
        None => 0,
    }
    &&& forall|i: int|
        0 <= i < ev.integrity_flags@.len() ==> match text_integrity {
            Some((flags, _, _)) => #[trigger] ev.integrity_flags@[i]@ == flag_name(flags[i])@,
            None => false,
        }
    &&& opt_string_view(ev.error_fingerprint) == match error {
        Some(e) => Some(hex_lower(sha256_of(e.spec_bytes()))),
        None => None,
    }
    &&& opt_string_view(ev.error_summary) == match error {
        Some(_) => Some(category_summary(category)@),
        None => None,
    }
    &&& ev.resident_memory_bytes == env.resident_memory_bytes
    &&& ev.private_commit_bytes == env.private_commit_bytes
    &&& ev.peak_private_commit_bytes == env.peak_private_commit_bytes
    &&& ev.dropped_events == env.dropped_events
}

fn flag_names(flags: &Vec<TextIntegrityFlag>) -> (r: Vec<String>)
    ensures
        r@.len() == flags@.len(),
        forall|i: int| 0 <= i < r@.len() ==> #[trigger] r@[i]@ == flag_name(flags@[i])@,
{
    let mut r: Vec<String> = Vec::new();
    let n = flags.len();
    for i in 0..n
        invariant
            n == flags@.len(),
            r@.len() == i,
            forall|j: int| 0 <= j < i ==> #[trigger] r@[j]@ == flag_name(flags@[j])@,
    {
        r.push(flags[i].as_str().to_owned());
    }
    r
}

fn bounded_opt(value: &Option<String>, max_bytes: usize) -> (r: Option<String>)
    ensures
        opt_string_view(r) == match value {
            Some(c) => Some(bounded_text(c@, max_bytes as int)),
            None => None,
        },
{
    match value {
        Some(v) => Some(bounded(v.as_str(), max_bytes)),
        None => None,
    }
}

/// Builds the event recorded for an observation.
pub fn build_event(
    ctx: &CompatibilityDiagnosticsContext,
    input: CompatibilityEventInput,
    text_integrity: Option<(&TextIntegrityAnalysis, &str)>,
    metrics: Option<CompatibilityMetrics>,
    env: &EventEnvironment,
) -> (ev: CompatibilityEvent)
    ensures
        is_recorded_event(
            *ctx,
            input,
            match text_integrity {
                Some((a, f)) => Some((a.flags@, a.char_count, f@)),
                None => None,
            },
            metrics,
            *env,
            ev,
        ),
        keeps_no_raw_text(ev),
{
    proof {
        crate::text::lemma_encode_len_at_least(input.phase@);
    }
    let error: Option<&str> = match input.error {
        Some(e) => {
            proof {
                crate::text::lemma_encode_len_at_least(e@);
            }
            if e.as_bytes().len() > 0 {
                Some(e)
            } else {
                None
            }
        },
        None => None,
    };
    let classified = match error {
        Some(e) => {
            let limited = bounded(e, MAX_ERROR_CLASSIFICATION_BYTES);
            classify(input.phase, input.tool_name, Some(limited.as_str()))
        },
        None => classify(input.phase, input.tool_name, None),
    };
    let tool_name = match input.tool_name {
        Some(t) => Some(safe_tool_name(t)),
        None => None,
    };
    let tool_namespace = match input.tool_namespace {
        Some(t) => Some(safe_namespace(t)),
        None => None,
    };
    let (text_fingerprint, text_char_count, integrity_flags) = match text_integrity {
        Some((analysis, f)) => (Some(f.to_owned()), Some(analysis.char_count), flag_names(&analysis.flags)),
        None => (None, None, Vec::new()),
    };
    let error_fingerprint = match error {
        Some(e) => Some(fingerprint(e)),
        None => None,
    };
    let error_summary = match error {
        Some(_) => Some(classified.summary.to_owned()),
        None => None,
    };
    let duration_ms: u64 = if input.duration_ms <= 18446744073709551615u128 {
        input.duration_ms as u64
    } else {
        u64::MAX
    };
    let ev = CompatibilityEvent {
        schema_version: SCHEMA_VERSION,
        timestamp: env.timestamp.clone(),
        process_id: env.process_id,
        app_version: bounded(ctx.app_version.as_str(), 64),
        build_commit: bounded_opt(&ctx.build_commit, 64),
        os: env.os.clone(),
        arch: env.arch.clone(),
        provider: bounded(ctx.provider.as_str(), 128),
        model: bounded(ctx.model.as_str(), 128),
        session_hash: fingerprint(ctx.session_id.as_str()),
        phase: bounded(input.phase, 96),
        category: classified.code.to_owned(),
        outcome: input.outcome.as_str().to_owned(),
        tool_name,
        tool_namespace,
        representation: input.representation.as_str().to_owned(),
        duration_ms,
        input_bytes: input.input_bytes,
        output_bytes: input.output_bytes,
        metrics,
        text_fingerprint,
        text_char_count,
        integrity_flags,
        error_fingerprint,
        error_summary,
        resident_memory_bytes: env.resident_memory_bytes,
        private_commit_bytes: env.private_commit_bytes,
        peak_private_commit_bytes: env.peak_private_commit_bytes,
        dropped_events: env.dropped_events,
    };
    proof {
        if ev.error_summary is Some {
            assert(ev.error_summary->0@ == category_summary(classified.category)@);
        }
    }
    ev
}

/// Best-effort recorder of compatibility events. A disabled recorder records
/// nothing; an enabled one builds the event for each observation, which the
/// host then queues for writing.
pub struct CompatibilityDiagnostics {
    pub context: Option<CompatibilityDiagnosticsContext>,
}

impl Default for CompatibilityDiagnostics {
    fn default() -> (r: Self)
        ensures
            r.context is None,
    {
        CompatibilityDiagnostics { context: None }
    }
}

/// The observation that `record_text_integrity` records.
pub open spec fn text_integrity_input<'a>(input: TextIntegrityEventInput<'a>, suspicious: bool) -> CompatibilityEventInput<'a> {
    CompatibilityEventInput {
        phase: input.phase,
        outcome: if suspicious {
            input.outcome
        } else {
            CompatibilityOutcome::Success
        },
        tool_name: input.tool_name,
        tool_namespace: input.tool_namespace,
        representation: input.representation,
        duration_ms: 0,
        input_bytes: input.text.spec_bytes().len() as usize,
        output_bytes: 0,
        error: if suspicious {
            Some("model output text integrity signal")
        } else {
            None
        },
    }
}

impl CompatibilityDiagnostics {
    /// A recorder for the given session.
    pub fn enabled(context: CompatibilityDiagnosticsContext) -> (r: Self)
        ensures
            r.context == Some(context),
    {
        CompatibilityDiagnostics { context: Some(context) }
    }

    /// Whether the recorder records events.
    pub fn is_enabled(&self) -> (r: bool)
        ensures
            r == self.context is Some,
    {
        self.context.is_some()
    }

    /// The event to record for an observation, if the recorder is enabled.
    pub fn record(&self, input: CompatibilityEventInput, env: &EventEnvironment) -> (r: Option<CompatibilityEvent>)
        ensures
            self.context is None ==> r is None,
            self.context matches Some(ctx) ==> r matches Some(ev) && is_recorded_event(ctx, input, None, None, *env, ev),
            r matches Some(ev) ==> keeps_no_raw_text(ev),
    {
        match &self.context {
            Some(ctx) => Some(build_event(ctx, input, None, None, env)),
            None => None,
        }
    }

    /// The event to record for an observation with request metrics, if the
    /// recorder is enabled.
    pub fn record_with_metrics(&self, input: CompatibilityEventInput, metrics: CompatibilityMetrics, env: &EventEnvironment) -> (r: Option<CompatibilityEvent>)
        ensures
            self.context is None ==> r is None,
            self.context matches Some(ctx) ==> r matches Some(ev) && is_recorded_event(ctx, input, None, Some(metrics), *env, ev),
            r matches Some(ev) ==> keeps_no_raw_text(ev),
    {
        match &self.context {
            Some(ctx) => Some(build_event(ctx, input, None, Some(metrics), env)),
            None => None,
        }
    }

    /// Analyzes a model text and gives the analysis with the event to record:
    /// the text's byte length, a session-salted fingerprint, its character
    /// count and flags, and an error only when a flag was raised.
    pub fn record_text_integrity(&self, input: TextIntegrityEventInput, env: &EventEnvironment) -> (r: (TextIntegrityAnalysis, Option<CompatibilityEvent>))
        ensures
            r.0.byte_count == input.text.spec_bytes().len(),
            r.0.char_count == input.text@.len(),
            r.0.flags@ == integrity_flags(input.text),
            self.context is None ==> r.1 is None,
            self.context matches Some(ctx) ==> r.1 matches Some(ev) && is_recorded_event(
                ctx,
                text_integrity_input(input, r.0.flags@.len() > 0),
                Some((r.0.flags@, r.0.char_count, hex_lower(sha256_of(salted_input(utf8(ctx.session_id@), input.text.spec_bytes()))))),
                None,
                *env,
                ev,
            ),
            r.1 matches Some(ev) ==> keeps_no_raw_text(ev),
    {
        let analysis = analyze_text_integrity(input.text);
        let suspicious = analysis.is_suspicious();
        match &self.context {
            None => (analysis, None),
            Some(ctx) => {
                let text_fingerprint = salted_fingerprint(ctx.session_id.as_str(), input.text);
                let event_input = CompatibilityEventInput {
                    phase: input.phase,
                    outcome: if suspicious {
                        input.outcome
                    } else {
                        CompatibilityOutcome::Success
                    },
                    tool_name: input.tool_name,
                    tool_namespace: input.tool_namespace,
                    representation: input.representation,
                    duration_ms: 0,
                    input_bytes: input.text.as_bytes().len(),
                    output_bytes: 0,
                    error: if suspicious {
                        Some("model output text integrity signal")
                    } else {
                        None
                    },
                };
                let event = build_event(
                    ctx,
                    event_input,
                    Some((&analysis, text_fingerprint.as_str())),
                    None,
                    env,
                );
                (analysis, Some(event))
            },
        }
    }
}

/// Two events agree in everything but their metrics.
pub open spec fn same_but_metrics(a: CompatibilityEvent, b: CompatibilityEvent) -> bool {
    &&& a.schema_version == b.schema_version
    &&& a.timestamp == b.timestamp
    &&& a.process_id == b.process_id
    &&& a.app_version@ == b.app_version@
    &&& opt_string_view(a.build_commit) == opt_string_view(b.build_commit)
    &&& a.os == b.os
    &&& a.arch == b.arch
    &&& a.provider@ == b.provider@
    &&& a.model@ == b.model@
    &&& a.session_hash@ == b.session_hash@
    &&& a.phase@ == b.phase@
    &&& a.category@ == b.category@
    &&& a.outcome@ == b.outcome@
    &&& opt_string_view(a.tool_name) == opt_string_view(b.tool_name)
    &&& opt_string_view(a.tool_namespace) == opt_string_view(b.tool_namespace)
    &&& a.representation@ == b.representation@
    &&& a.duration_ms == b.duration_ms
    &&& a.input_bytes == b.input_bytes
    &&& a.output_bytes == b.output_bytes
    &&& opt_string_view(a.text_fingerprint) == opt_string_view(b.text_fingerprint)
    &&& a.text_char_count == b.text_char_count
    &&& a.integrity_flags@.map_values(|f: String| f@) == b.integrity_flags@.map_values(|f: String| f@)
    &&& opt_string_view(a.error_fingerprint) == opt_string_view(b.error_fingerprint)
    &&& opt_string_view(a.error_summary) == opt_string_view(b.error_summary)
    &&& a.resident_memory_bytes == b.resident_memory_bytes
    &&& a.private_commit_bytes == b.private_commit_bytes
    &&& a.peak_private_commit_bytes == b.peak_private_commit_bytes
    &&& a.dropped_events == b.dropped_events
}

/// Law: recording with metrics records the event that recording without
/// them would, in the same environment, with the metrics attached (where
/// plain recording attaches none).
pub proof fn lemma_metrics_change_only_the_metrics(
    ctx: CompatibilityDiagnosticsContext,
    input: CompatibilityEventInput,
    metrics: CompatibilityMetrics,
    env: EventEnvironment,
    metered: CompatibilityEvent,
    plain: CompatibilityEvent,
)
    requires
        is_recorded_event(ctx, input, None, Some(metrics), env, metered),
        is_recorded_event(ctx, input, None, None, env, plain),
    ensures
        metered.metrics == Some(metrics),
        plain.metrics is None,
        same_but_metrics(metered, plain),
{
    assert(metered.integrity_flags@.map_values(|f: String| f@) =~= plain.integrity_flags@.map_values(
        |f: String| f@,
    ));
}

/// Law: whatever is configured, events are kept between one and 30 days,
/// and the directory may hold between 1 MiB and 256 MiB.
pub proof fn lemma_retention_within_privacy_limits(config: CompatibilityDiagnosticsConfig)
    ensures
        ({
            let days = clamp(
                match config.retention_days {
                    Some(d) => d as int,
                    None => 30,
                },
                1,
                30,
            );
            1 <= days <= DEFAULT_RETENTION_DAYS
        }),
        ({
            let mib = clamp(
                match config.max_total_mib {
                    Some(m) => m as int,
                    None => 256,
                },
                1,
                256,
            );
            1048576 <= mib * 1048576 <= DEFAULT_MAX_TOTAL_MIB * 1048576
        }),
{
}

} // verus!
