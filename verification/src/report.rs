//! The bounded compatibility report: aggregation of recorded events into a
//! summary with a few failure samples, and its Markdown rendering.
use vstd::prelude::*;
use vstd::string::StringSliceAdditionalSpecFns;

use crate::compatibility::{
    metrics_sum, sat_add, zero_metrics, CompatibilityEvent, CompatibilityMetrics, MAX_EVENT_BYTES,
    MAX_REPORT_BYTES, MAX_REPORT_SAMPLES, MAX_SAMPLES_PER_FINGERPRINT, SCHEMA_VERSION,
};
use crate::digest::{fingerprint_bytes, hex_lower, sha256_of};
use crate::sorted_keys::{increment, is_position, key_of, locate, sorted_keys};
use crate::text::{append_str, decimal, decimal_string, str_eq, utf8};

verus! {

broadcast use vstd::string::group_string_axioms;

/// The larger of two optional measurements; a missing one is ignored.
pub open spec fn max_of(current: Option<u64>, candidate: Option<u64>) -> Option<u64> {
    match (current, candidate) {
        (Some(c), Some(d)) => Some(if c >= d { c } else { d }),
        (Some(c), None) => Some(c),
        (None, d) => d,
    }
}

/// The larger of two optional measurements; a missing one is ignored.
pub fn maximum(current: Option<u64>, candidate: Option<u64>) -> (r: Option<u64>)
    ensures
        r == max_of(current, candidate),
{
    match (current, candidate) {
        (Some(c), Some(d)) => Some(
            if c >= d {
                c
            } else {
                d
            },
        ),
        (Some(c), None) => Some(c),
        (None, d) => d,
    }
}

/// The totals of a compatibility report.
#[derive(Clone, Debug)]
pub struct CompatibilityReportSummary {
    pub schema_version: u16,
    pub generated_at: String,
    pub total_events: u64,
    pub failed_events: u64,
    pub sampled_failures: u64,
    pub malformed_lines: u64,
    pub dropped_events: u64,
    pub max_resident_memory_bytes: Option<u64>,
    pub max_private_commit_bytes: Option<u64>,
    pub peak_private_commit_bytes: Option<u64>,
    /// Event counts per category, in the order of the category names.
    pub categories: Vec<(String, u64)>,
    pub metrics: CompatibilityMetrics,
}

/// A report being built: the summary and the failure samples, grouped by
/// error fingerprint (or category) in key order.
pub struct CompatibilityReport {
    pub summary: CompatibilityReportSummary,
    pub samples: Vec<(String, Vec<CompatibilityEvent>)>,
    pub sample_count: usize,
}

/// The key under which a failure is sampled.
pub open spec fn sample_key(ev: CompatibilityEvent) -> Seq<char> {
    match ev.error_fingerprint {
        Some(f) => f@,
        None => ev.category@,
    }
}

/// The categories after counting `key`, where `i` is its sorted place: its
/// count raised by one, or a new entry with count one.
pub open spec fn category_step(old: Seq<(String, u64)>, new: Seq<(String, u64)>, key: Seq<char>, i: int) -> bool {
    is_position(old, crate::text::utf8(key), i) && if i < old.len() && key_of(old[i])
        == crate::text::utf8(key) {
        new == old.update(i, (old[i].0, (old[i].1 + 1) as u64))
    } else {
        &&& new.len() == old.len() + 1
        &&& new[i].0@ == key
        &&& new[i].1 == 1
        &&& new.remove(i) == old
    }
}

/// The samples after offering failure `ev` at its key's sorted place `i`:
/// appended to its key's group while that has fewer than three, or a new
/// group.
pub open spec fn sample_step(
    old: Seq<(String, Vec<CompatibilityEvent>)>,
    new: Seq<(String, Vec<CompatibilityEvent>)>,
    old_count: usize,
    new_count: usize,
    ev: CompatibilityEvent,
    i: int,
) -> bool {
    is_position(old, crate::text::utf8(sample_key(ev)), i) && if i < old.len() && key_of(old[i])
        == crate::text::utf8(sample_key(ev)) {
        if old[i].1@.len() < MAX_SAMPLES_PER_FINGERPRINT {
            &&& new.len() == old.len()
            &&& forall|j: int| 0 <= j < old.len() && j != i ==> new[j] == old[j]
            &&& new[i].0 == old[i].0
            &&& new[i].1@ == old[i].1@.push(ev)
            &&& new_count == old_count + 1
        } else {
            &&& new == old
            &&& new_count == old_count
        }
    } else {
        &&& new.len() == old.len() + 1
        &&& new[i].0@ == sample_key(ev)
        &&& new[i].1@ == seq![ev]
        &&& new.remove(i) == old
        &&& new_count == old_count + 1
    }
}

/// The report `new` is `old` with the event added: counted, its category
/// counted, its measurements folded in, and, for a failure, counted as
/// failed and kept as a sample at its key while the key has fewer than three
/// samples and the report fewer than 512. Nothing else changes.
pub open spec fn event_added(old: CompatibilityReport, new: CompatibilityReport, event: CompatibilityEvent) -> bool {
    &&& new.summary.schema_version == old.summary.schema_version
    &&& new.summary.generated_at == old.summary.generated_at
    &&& new.summary.sampled_failures == old.summary.sampled_failures
    &&& new.summary.malformed_lines == old.summary.malformed_lines
    &&& new.summary.total_events == old.summary.total_events + 1
    &&& new.summary.dropped_events == sat_add(old.summary.dropped_events, event.dropped_events)
    &&& new.summary.max_resident_memory_bytes == max_of(
        old.summary.max_resident_memory_bytes,
        event.resident_memory_bytes,
    )
    &&& new.summary.max_private_commit_bytes == max_of(
        old.summary.max_private_commit_bytes,
        event.private_commit_bytes,
    )
    &&& new.summary.peak_private_commit_bytes == max_of(
        old.summary.peak_private_commit_bytes,
        event.peak_private_commit_bytes,
    )
    &&& new.summary.metrics == match event.metrics {
        Some(m) => metrics_sum(old.summary.metrics, m),
        None => old.summary.metrics,
    }
    &&& exists|i: int| category_step(old.summary.categories@, new.summary.categories@, event.category@, i)
    &&& event.outcome@ == "success"@ ==> {
        &&& new.summary.failed_events == old.summary.failed_events
        &&& new.samples == old.samples
        &&& new.sample_count == old.sample_count
    }
    &&& event.outcome@ != "success"@ ==> new.summary.failed_events == old.summary.failed_events + 1
    &&& event.outcome@ != "success"@ && old.sample_count >= MAX_REPORT_SAMPLES ==> new.samples
        == old.samples && new.sample_count == old.sample_count
    &&& event.outcome@ != "success"@ && old.sample_count < MAX_REPORT_SAMPLES ==> exists|i: int|
        sample_step(old.samples@, new.samples@, old.sample_count, new.sample_count, event, i)
}

/// The number of samples in all groups.
pub open spec fn sample_total(s: Seq<(String, Vec<CompatibilityEvent>)>) -> nat
    decreases s.len(),
{
    if s.len() == 0 {
        0
    } else {
        sample_total(s.drop_last()) + s.last().1@.len()
    }
}

proof fn lemma_sample_total_split(s: Seq<(String, Vec<CompatibilityEvent>)>, k: int)
    requires
        0 <= k <= s.len(),
    ensures
        sample_total(s) == sample_total(s.take(k)) + sample_total(s.skip(k)),
    decreases s.len(),
{
    if k == s.len() {
        assert(s.take(k) =~= s);
        assert(s.skip(k).len() == 0);
    } else {
        lemma_sample_total_split(s.drop_last(), k);
        assert(s.drop_last().take(k) =~= s.take(k));
        assert(s.skip(k).drop_last() =~= s.drop_last().skip(k));
        assert(s.skip(k).last() == s.last());
    }
}

proof fn lemma_sample_total_single(x: (String, Vec<CompatibilityEvent>))
    ensures
        sample_total(seq![x]) == x.1@.len(),
{
    let s = seq![x];
    assert(s.drop_last() =~= Seq::<(String, Vec<CompatibilityEvent>)>::empty());
    assert(sample_total(s.drop_last()) == 0);
    assert(s.last() == x);
}

/// Replacing the group at `i` changes the total by the change of its size.
proof fn lemma_sample_total_replace(s: Seq<(String, Vec<CompatibilityEvent>)>, t: Seq<(String, Vec<CompatibilityEvent>)>, i: int)
    requires
        0 <= i < s.len(),
        t.len() == s.len(),
        forall|j: int| 0 <= j < s.len() && j != i ==> t[j] == s[j],
    ensures
        sample_total(t) + s[i].1@.len() == sample_total(s) + t[i].1@.len(),
{
    lemma_sample_total_split(s, i);
    lemma_sample_total_split(t, i);
    lemma_sample_total_split(s.skip(i), 1);
    lemma_sample_total_split(t.skip(i), 1);
    assert(s.take(i) =~= t.take(i));
    assert(s.skip(i).skip(1) =~= t.skip(i).skip(1));
    assert(s.skip(i).take(1) =~= seq![s[i]]);
    assert(t.skip(i).take(1) =~= seq![t[i]]);
    lemma_sample_total_single(s[i]);
    lemma_sample_total_single(t[i]);
}

/// Inserting a group at `i` adds its size to the total.
proof fn lemma_sample_total_insert(s: Seq<(String, Vec<CompatibilityEvent>)>, t: Seq<(String, Vec<CompatibilityEvent>)>, i: int)
    requires
        0 <= i < t.len(),
        t.remove(i) == s,
    ensures
        sample_total(t) == sample_total(s) + t[i].1@.len(),
{
    lemma_sample_total_split(s, i);
    lemma_sample_total_split(t, i);
    lemma_sample_total_split(t.skip(i), 1);
    assert(s.take(i) =~= t.take(i));
    assert(t.skip(i).skip(1) =~= s.skip(i));
    assert(t.skip(i).take(1) =~= seq![t[i]]);
    lemma_sample_total_single(t[i]);
}

impl CompatibilityReport {
    /// The report's internal consistency: keys in order, each category count
    /// at most the total, at most 512 samples, between one and three samples
    /// under each key, and a sample count that counts them.
    pub open spec fn wf(&self) -> bool {
        &&& sorted_keys(self.summary.categories@)
        &&& forall|j: int|
            0 <= j < self.summary.categories@.len() ==> (
            #[trigger] self.summary.categories@[j]).1 <= self.summary.total_events
        &&& self.summary.failed_events <= self.summary.total_events
        &&& samples_wf(self.samples@, self.sample_count)
    }

    /// An empty report generated at the given time.
    pub fn new(generated_at: String) -> (r: Self)
        ensures
            r.wf(),
            r.summary.schema_version == SCHEMA_VERSION,
            r.summary.generated_at == generated_at,
            r.summary.total_events == 0,
            r.summary.failed_events == 0,
            r.summary.sampled_failures == 0,
            r.summary.malformed_lines == 0,
            r.summary.dropped_events == 0,
            r.summary.max_resident_memory_bytes is None,
            r.summary.max_private_commit_bytes is None,
            r.summary.peak_private_commit_bytes is None,
            r.summary.categories@.len() == 0,
            r.summary.metrics == zero_metrics(),
            r.samples@.len() == 0,
            r.sample_count == 0,
    {
        CompatibilityReport {
            summary: CompatibilityReportSummary {
                schema_version: SCHEMA_VERSION,
                generated_at,
                total_events: 0,
                failed_events: 0,
                sampled_failures: 0,
                malformed_lines: 0,
                dropped_events: 0,
                max_resident_memory_bytes: None,
                max_private_commit_bytes: None,
                peak_private_commit_bytes: None,
                categories: Vec::new(),
                metrics: CompatibilityMetrics::default(),
            },
            samples: Vec::new(),
            sample_count: 0,
        }
    }

    /// Counts a line that could not be read as an event.
    pub fn add_malformed_line(&mut self)
        requires
            old(self).summary.malformed_lines < u64::MAX,
        ensures
            *final(self) == (CompatibilityReport {
                summary: CompatibilityReportSummary {
                    malformed_lines: (old(self).summary.malformed_lines + 1) as u64,
                    ..old(self).summary
                },
                ..*old(self)
            }),
    {
        self.summary.malformed_lines = self.summary.malformed_lines + 1;
    }

    /// Adds an event: it is counted, its category counted, its measurements
    /// folded in, and a failure is kept as a sample while its key has fewer
    /// than three samples and the report fewer than 512.
    pub fn add_event(&mut self, event: CompatibilityEvent)
        requires
            old(self).wf(),
            old(self).summary.total_events < u64::MAX,
        ensures
            final(self).wf(),
            event_added(*old(self), *final(self), event),
    {
        let ghost old_cats = self.summary.categories@;
        let ghost old_total = self.summary.total_events;
        self.summary.total_events = self.summary.total_events + 1;
        self.summary.dropped_events = if self.summary.dropped_events <= u64::MAX - event.dropped_events {
            self.summary.dropped_events + event.dropped_events
        } else {
            u64::MAX
        };
        self.summary.max_resident_memory_bytes = maximum(self.summary.max_resident_memory_bytes, event.resident_memory_bytes);
        self.summary.max_private_commit_bytes = maximum(self.summary.max_private_commit_bytes, event.private_commit_bytes);
        self.summary.peak_private_commit_bytes = maximum(self.summary.peak_private_commit_bytes, event.peak_private_commit_bytes);
        let ci_exec = increment(&mut self.summary.categories, event.category.as_str());
        let ghost ci = ci_exec as int;
        let ghost new_cats = self.summary.categories@;
        proof {
            let i = ci;
            assert forall|j: int| 0 <= j < self.summary.categories@.len() implies (#[trigger] self.summary.categories@[j]).1 <= self.summary.total_events by {
                let nc = self.summary.categories@;
                if i < old_cats.len() && key_of(old_cats[i]) == crate::text::utf8(event.category@) {
                    assert(old(self).summary.categories@[j].1 <= old(self).summary.total_events);
                } else if j < i {
                    assert(nc.remove(i) =~= nc.subrange(0, i) + nc.subrange(i + 1, nc.len() as int));
                    assert(nc.remove(i)[j] == nc[j]);
                    assert(old(self).summary.categories@[j].1 <= old(self).summary.total_events);
                } else if j > i {
                    assert(nc.remove(i) =~= nc.subrange(0, i) + nc.subrange(i + 1, nc.len() as int));
                    assert(nc.remove(i)[j - 1] == nc[j]);
                    assert(old(self).summary.categories@[j - 1].1 <= old(self).summary.total_events);
                }
            }
        }
        match &event.metrics {
            Some(m) => self.summary.metrics.add_assign(m),
            None => {},
        }
        let ghost ev = event;
        let ghost old_samples = self.samples@;
        let ghost old_count = self.sample_count;
        if !str_eq(event.outcome.as_str(), "success") {
            self.summary.failed_events = self.summary.failed_events + 1;
            if self.sample_count < MAX_REPORT_SAMPLES {
                self.offer_sample(event);
            }
        }
        assert(self.summary.categories@ == new_cats);
        assert(category_step(old_cats, self.summary.categories@, ev.category@, ci));
    }
}

/// The sampling part of the report's invariant.
pub open spec fn samples_wf(samples: Seq<(String, Vec<CompatibilityEvent>)>, count: usize) -> bool {
    &&& sorted_keys(samples)
    &&& count <= MAX_REPORT_SAMPLES
    &&& forall|j: int| 0 <= j < samples.len() ==> 1 <= (#[trigger] samples[j]).1@.len() <= MAX_SAMPLES_PER_FINGERPRINT
    &&& count == sample_total(samples)
}

impl CompatibilityReport {
    /// Offers a failure for sampling at its key.
    fn offer_sample(&mut self, event: CompatibilityEvent)
        requires
            samples_wf(old(self).samples@, old(self).sample_count),
            old(self).sample_count < MAX_REPORT_SAMPLES,
        ensures
            samples_wf(final(self).samples@, final(self).sample_count),
            final(self).summary == old(self).summary,
            exists|i: int|
                sample_step(old(self).samples@, final(self).samples@, old(self).sample_count, final(self).sample_count, event, i),
    {
        let ghost ev = event;
        let ghost old_samples = self.samples@;
        let ghost old_count = self.sample_count;
        let key = match &event.error_fingerprint {
            Some(f) => f.clone(),
            None => event.category.clone(),
        };
        let (found, i) = locate(&self.samples, key.as_str());
        if found {
            if self.samples[i].1.len() >= MAX_SAMPLES_PER_FINGERPRINT {
                assert(sample_step(old_samples, self.samples@, old_count, self.sample_count, ev, i as int));
            }
            if self.samples[i].1.len() < MAX_SAMPLES_PER_FINGERPRINT {
                let ghost before = self.samples@;
                let (name, mut group) = self.samples.remove(i);
                group.push(event);
                self.samples.insert(i, (name, group));
                assert(self.samples@.len() == before.len());
                assert forall|j: int| 0 <= j < before.len() && j != i implies self.samples@[j] == before[j] by {
                    if j < i {
                    } else {
                    }
                }
                self.sample_count = self.sample_count + 1;
                proof {
                    lemma_sample_total_replace(before, self.samples@, i as int);
                    assert(sample_step(old_samples, self.samples@, old_count, self.sample_count, ev, i as int));
                    assert forall|a: int, b: int| 0 <= a < b < self.samples@.len() implies #[trigger] crate::sorted_keys::lex_lt(
                        key_of(self.samples@[a]),
                        key_of(self.samples@[b]),
                    ) by {
                        assert(key_of(self.samples@[a]) == key_of(before[a]));
                        assert(key_of(self.samples@[b]) == key_of(before[b]));
                    }
                }
            }
        } else {
            let ghost before = self.samples@;
            self.samples.insert(i, (key, vec![event]));
            self.sample_count = self.sample_count + 1;
            proof {
                assert(self.samples@.remove(i as int) =~= before);
                lemma_sample_total_insert(before, self.samples@, i as int);
                assert(key@ == sample_key(ev));
                assert(self.samples@[i as int].0@ == sample_key(ev));
                assert(self.samples@[i as int].1@ == seq![ev]);
                assert(is_position(old_samples, crate::text::utf8(sample_key(ev)), i as int));
                assert(!(i < old_samples.len() && key_of(old_samples[i as int]) == crate::text::utf8(sample_key(ev))));
                assert(sample_step(old_samples, self.samples@, old_count, self.sample_count, ev, i as int));
                assert forall|a: int, b: int| 0 <= a < b < self.samples@.len() implies #[trigger] crate::sorted_keys::lex_lt(
                    key_of(self.samples@[a]),
                    key_of(self.samples@[b]),
                ) by {
                    if a < i && b < i {
                        assert(self.samples@[a] == before[a] && self.samples@[b] == before[b]);
                    } else if a < i && b == i {
                    } else if a < i && b > i {
                        assert(self.samples@[a] == before[a] && self.samples@[b] == before[b - 1]);
                        if i < before.len() {
                            crate::sorted_keys::lemma_lex_transitive(key_of(before[a]), crate::text::utf8(key@), key_of(before[b - 1]));
                        }
                    } else if a == i {
                        assert(self.samples@[b] == before[b - 1]);
                    } else {
                        assert(self.samples@[a] == before[a - 1] && self.samples@[b] == before[b - 1]);
                    }
                }
            }
        }
    }
}

/// How a measurement is shown: its decimal value, or `unavailable`.
pub open spec fn bytes_text(value: Option<u64>) -> Seq<char> {
    match value {
        Some(v) => decimal(v as nat),
        None => "unavailable"@,
    }
}

/// Shows a measurement.
pub fn display_bytes(value: Option<u64>) -> (r: String)
    ensures
        r@ == bytes_text(value),
{
    match value {
        Some(v) => decimal_string(v),
        None => "unavailable".to_owned(),
    }
}

/// The table rows of the category counts.
pub open spec fn category_rows(cats: Seq<(String, u64)>) -> Seq<char>
    decreases cats.len(),
{
    if cats.len() == 0 {
        Seq::empty()
    } else {
        category_rows(cats.drop_last()) + "| `"@ + cats.last().0@ + "` | "@ + decimal(cats.last().1 as nat)
            + " |\n"@
    }
}

/// The Markdown summary of a report.
pub open spec fn markdown_of(s: CompatibilityReportSummary) -> Seq<char> {
    "# Codex compatibility diagnostics\n\nGenerated: "@ + s.generated_at@ + "\n\nTotal events: "@
        + decimal(s.total_events as nat) + "\n\nFailed events: "@ + decimal(s.failed_events as nat)
        + "\n\nSampled failures: "@ + decimal(s.sampled_failures as nat) + "\n\nMalformed lines: "@
        + decimal(s.malformed_lines as nat) + "\n\nDropped events: "@ + decimal(s.dropped_events as nat)
        + "\n\nMaximum resident memory: "@ + bytes_text(s.max_resident_memory_bytes)
        + "\n\nMaximum Windows private commit: "@ + bytes_text(s.max_private_commit_bytes)
        + "\n\nPeak Windows private commit: "@ + bytes_text(s.peak_private_commit_bytes)
        + "\n\n## Token efficiency\n\n| Metric | Total |\n|---|---:|\n| History bytes | "@ + decimal(
        s.metrics.history_bytes as nat,
    ) + " |\n| Tool schema bytes | "@ + decimal(s.metrics.tool_schema_bytes as nat)
        + " |\n| Instruction bytes | "@ + decimal(s.metrics.instruction_bytes as nat)
        + " |\n| Input tokens | "@ + decimal(s.metrics.input_tokens as nat) + " |\n| Cached input tokens | "@
        + decimal(s.metrics.cached_input_tokens as nat) + " |\n| Output tokens | "@ + decimal(
        s.metrics.output_tokens as nat,
    ) + " |\n| Reasoning output tokens | "@ + decimal(s.metrics.reasoning_output_tokens as nat)
        + " |\n\n## Categories\n\n| Category | Count |\n|---|---:|\n"@ + category_rows(s.categories@)
}

fn push_decimal(out: &mut String, n: u64)
    ensures
        final(out)@ == old(out)@ + decimal(n as nat),
{
    append_str(out, decimal_string(n).as_str());
}

/// Renders the Markdown summary of a report.
pub fn render_markdown(summary: &CompatibilityReportSummary) -> (r: String)
    ensures
        r@ == markdown_of(*summary),
{
    let s = summary;
    let mut o = "# Codex compatibility diagnostics\n\nGenerated: ".to_owned();
    append_str(&mut o, s.generated_at.as_str());
    append_str(&mut o, "\n\nTotal events: ");
    push_decimal(&mut o, s.total_events);
    append_str(&mut o, "\n\nFailed events: ");
    push_decimal(&mut o, s.failed_events);
    append_str(&mut o, "\n\nSampled failures: ");
    push_decimal(&mut o, s.sampled_failures);
    append_str(&mut o, "\n\nMalformed lines: ");
    push_decimal(&mut o, s.malformed_lines);
    append_str(&mut o, "\n\nDropped events: ");
    push_decimal(&mut o, s.dropped_events);
    append_str(&mut o, "\n\nMaximum resident memory: ");
    append_str(&mut o, display_bytes(s.max_resident_memory_bytes).as_str());
    append_str(&mut o, "\n\nMaximum Windows private commit: ");
    append_str(&mut o, display_bytes(s.max_private_commit_bytes).as_str());
    append_str(&mut o, "\n\nPeak Windows private commit: ");
    append_str(&mut o, display_bytes(s.peak_private_commit_bytes).as_str());
    append_str(&mut o, "\n\n## Token efficiency\n\n| Metric | Total |\n|---|---:|\n| History bytes | ");
    push_decimal(&mut o, s.metrics.history_bytes);
    append_str(&mut o, " |\n| Tool schema bytes | ");
    push_decimal(&mut o, s.metrics.tool_schema_bytes);
    append_str(&mut o, " |\n| Instruction bytes | ");
    push_decimal(&mut o, s.metrics.instruction_bytes);
    append_str(&mut o, " |\n| Input tokens | ");
    push_decimal(&mut o, s.metrics.input_tokens);
    append_str(&mut o, " |\n| Cached input tokens | ");
    push_decimal(&mut o, s.metrics.cached_input_tokens);
    append_str(&mut o, " |\n| Output tokens | ");
    push_decimal(&mut o, s.metrics.output_tokens);
    append_str(&mut o, " |\n| Reasoning output tokens | ");
    push_decimal(&mut o, s.metrics.reasoning_output_tokens);
    append_str(&mut o, " |\n\n## Categories\n\n| Category | Count |\n|---|---:|\n");
    let ghost head = o@;
    let n = s.categories.len();
    for i in 0..n
        invariant
            n == s.categories@.len(),
            o@ == head + category_rows(s.categories@.take(i as int)),
    {
        let ghost before = o@;
        append_str(&mut o, "| `");
        append_str(&mut o, s.categories[i].0.as_str());
        append_str(&mut o, "` | ");
        push_decimal(&mut o, s.categories[i].1);
        append_str(&mut o, " |\n");
        proof {
            let t = s.categories@.take(i + 1);
            assert(t.drop_last() =~= s.categories@.take(i as int));
            assert(t.last() == s.categories@[i as int]);
            assert(o@ =~= head + category_rows(t));
        }
    }
    assert(s.categories@.take(n as int) =~= s.categories@);
    o
}

/// Names the instant that an RFC 3339 timestamp denotes, as whole seconds
/// since the Unix epoch and the nanoseconds past them (`None` when the text
/// is not such a timestamp).
pub uninterp spec fn rfc3339_instant(text: Seq<char>) -> Option<(i64, u32)>;

/// Calls `chrono::DateTime::parse_from_rfc3339`, then `timestamp` and
/// `timestamp_subsec_nanos`. The contract claims only that the result is
/// the named `rfc3339_instant` of the text.
#[verifier::external_body]
fn parse_rfc3339(text: &str) -> (r: Option<(i64, u32)>)
    ensures
        r == rfc3339_instant(text@),
{
    chrono::DateTime::parse_from_rfc3339(text).ok().map(|t| (t.timestamp(), t.timestamp_subsec_nanos()))
}

/// An instant in nanoseconds since the Unix epoch.
pub open spec fn instant_nanos(t: (i64, u32)) -> int {
    t.0 * 1_000_000_000 + t.1
}

/// Whether instant `a` is before instant `b`.
pub fn instant_before(a: (i64, u32), b: (i64, u32)) -> (r: bool)
    ensures
        r == (instant_nanos(a) < instant_nanos(b)),
{
    let x = (a.0 as i128) * 1_000_000_000 + (a.1 as i128);
    let y = (b.0 as i128) * 1_000_000_000 + (b.1 as i128);
    x < y
}

/// What a line of an event file does to the report: a line over 16 KiB, or
/// one that is not an event with an RFC 3339 timestamp, counts as malformed;
/// an event from before `since` is skipped; any other event is added.
pub open spec fn line_added(
    old: CompatibilityReport,
    new: CompatibilityReport,
    line_bytes: usize,
    event: Option<CompatibilityEvent>,
    since: (i64, u32),
) -> bool {
    if line_bytes > MAX_EVENT_BYTES || event is None || rfc3339_instant(event->0.timestamp@) is None {
        new == CompatibilityReport {
            summary: CompatibilityReportSummary {
                malformed_lines: (old.summary.malformed_lines + 1) as u64,
                ..old.summary
            },
            ..old
        }
    } else if instant_nanos(rfc3339_instant(event->0.timestamp@)->0) < instant_nanos(since) {
        new == old
    } else {
        event_added(old, new, event->0)
    }
}

impl CompatibilityReport {
    /// Takes one line of an event file: its length in bytes and the event it
    /// holds (`None` when it is not an event).
    pub fn add_line(&mut self, line_bytes: usize, event: Option<CompatibilityEvent>, since: (i64, u32))
        requires
            old(self).wf(),
            old(self).summary.total_events < u64::MAX,
            old(self).summary.malformed_lines < u64::MAX,
        ensures
            final(self).wf(),
            line_added(*old(self), *final(self), line_bytes, event, since),
    {
        if line_bytes > MAX_EVENT_BYTES {
            self.add_malformed_line();
            return;
        }
        let event = match event {
            Some(e) => e,
            None => {
                self.add_malformed_line();
                return;
            },
        };
        let instant = match parse_rfc3339(event.timestamp.as_str()) {
            Some(t) => t,
            None => {
                self.add_malformed_line();
                return;
            },
        };
        if instant_before(instant, since) {
            return;
        }
        self.add_event(event);
    }

    /// Ends the report: the summary, with the number of samples kept, and
    /// the sampled failures, key by key in key order.
    pub fn into_parts(self) -> (r: (CompatibilityReportSummary, Vec<CompatibilityEvent>))
        ensures
            r.0 == (CompatibilityReportSummary { sampled_failures: self.sample_count as u64, ..self.summary }),
            r.1@ == sample_groups(self.samples@).flatten(),
            self.wf() ==> r.1@.len() == r.0.sampled_failures,
    {
        proof {
            lemma_flatten_len_total(self.samples@);
        }
        let mut summary = self.summary;
        summary.sampled_failures = self.sample_count as u64;
        let mut groups = self.samples;
        let ghost all = sample_groups(groups@);
        let mut events: Vec<CompatibilityEvent> = Vec::new();
        assert(all.take(0).flatten() =~= Seq::<CompatibilityEvent>::empty()) by {
            assert(all.take(0) =~= Seq::<Seq<CompatibilityEvent>>::empty());
        }
        let mut consumed: usize = 0;
        let total = groups.len();
        while groups.len() > 0
            invariant
                consumed + groups@.len() == total,
                total == all.len(),
                sample_groups(groups@) == all.skip(consumed as int),
                events@ == all.take(consumed as int).flatten(),
            decreases groups@.len(),
        {
            let ghost before = groups@;
            let (_, mut group) = groups.remove(0);
            let ghost g = group@;
            events.append(&mut group);
            proof {
                assert(g == before[0].1@);
                assert(sample_groups(before)[0] == g);
                assert(g == all[consumed as int]);
                assert(sample_groups(groups@) =~= sample_groups(before).drop_first());
                assert(all.take(consumed + 1) =~= all.take(consumed as int).push(g));
                all.take(consumed as int).lemma_flatten_push(g);
            }
            consumed = consumed + 1;
        }
        assert(all.take(total as int) =~= all);
        (summary, events)
    }
}

/// The sampled events of all groups are as many as the groups' total.
proof fn lemma_flatten_len_total(s: Seq<(String, Vec<CompatibilityEvent>)>)
    ensures
        sample_groups(s).flatten().len() == sample_total(s),
    decreases s.len(),
{
    if s.len() == 0 {
        assert(sample_groups(s) =~= Seq::<Seq<CompatibilityEvent>>::empty());
    } else {
        lemma_flatten_len_total(s.drop_last());
        assert(sample_groups(s) =~= sample_groups(s.drop_last()).push(s.last().1@));
        sample_groups(s.drop_last()).lemma_flatten_push(s.last().1@);
    }
}

/// The sample groups as event sequences, in key order.
pub open spec fn sample_groups(samples: Seq<(String, Vec<CompatibilityEvent>)>) -> Seq<Seq<CompatibilityEvent>> {
    samples.map_values(|e: (String, Vec<CompatibilityEvent>)| e.1@)
}

/// The line of a checksum list: the file's lower-case hexadecimal SHA-256,
/// two spaces and its name.
pub open spec fn checksum_line(file: (String, Vec<u8>)) -> Seq<char> {
    hex_lower(sha256_of(file.1@)) + "  "@ + file.0@
}

/// The checksum lines of the files joined by line feeds.
pub open spec fn checksum_lines(files: Seq<(String, Vec<u8>)>) -> Seq<char>
    decreases files.len(),
{
    if files.len() == 0 {
        Seq::empty()
    } else if files.len() == 1 {
        checksum_line(files[0])
    } else {
        checksum_lines(files.drop_last()) + "\n"@ + checksum_line(files.last())
    }
}

/// The checksum list of the report's files (`SHA256SUMS`): one line per
/// file, each ended by a line feed.
pub fn checksums_text(files: &Vec<(String, Vec<u8>)>) -> (r: String)
    ensures
        r@ == checksum_lines(files@) + "\n"@,
{
    let mut out = String::new();
    let n = files.len();
    for i in 0..n
        invariant
            n == files@.len(),
            out@ == checksum_lines(files@.take(i as int)),
    {
        if i > 0 {
            append_str(&mut out, "\n");
        }
        append_str(&mut out, fingerprint_bytes(files[i].1.as_slice()).as_str());
        append_str(&mut out, "  ");
        append_str(&mut out, files[i].0.as_str());
        proof {
            let t = files@.take(i + 1);
            assert(t.drop_last() =~= files@.take(i as int));
            assert(t.last() == files@[i as int]);
            if i == 0 {
                assert(t.len() == 1 && t[0] == files@[0]);
                assert(files@.take(0).len() == 0);
            }
        }
    }
    assert(files@.take(n as int) =~= files@);
    append_str(&mut out, "\n");
    out
}

/// The total size of the files.
pub open spec fn total_size(files: Seq<(String, Vec<u8>)>) -> int
    decreases files.len(),
{
    if files.len() == 0 {
        0
    } else {
        total_size(files.drop_last()) + files.last().1@.len()
    }
}

/// Refuses a report whose files together exceed 10 MiB.
pub fn check_report_size(files: &Vec<(String, Vec<u8>)>) -> (r: Result<(), String>)
    ensures
        r is Ok <==> total_size(files@) <= MAX_REPORT_BYTES,
        r matches Err(m) ==> m@ == "compatibility report exceeded the 10 MiB limit"@,
{
    let mut total: usize = 0;
    let n = files.len();
    for i in 0..n
        invariant
            n == files@.len(),
            total <= MAX_REPORT_BYTES,
            total == total_size(files@.take(i as int)),
    {
        let size = files[i].1.len();
        proof {
            assert(files@.take(i + 1).drop_last() =~= files@.take(i as int));
        }
        if size > MAX_REPORT_BYTES - total {
            proof {
                lemma_total_size_grows(files@, i + 1);
            }
            return Err("compatibility report exceeded the 10 MiB limit".to_owned());
        }
        total = total + size;
    }
    assert(files@.take(n as int) =~= files@);
    Ok(())
}

proof fn lemma_total_size_grows(files: Seq<(String, Vec<u8>)>, i: int)
    requires
        0 <= i <= files.len(),
    ensures
        total_size(files.take(i)) <= total_size(files),
    decreases files.len() - i,
{
    if i < files.len() {
        lemma_total_size_grows(files, i + 1);
        assert(files.take(i + 1).drop_last() =~= files.take(i));
    } else {
        assert(files.take(i) =~= files);
    }
}

/// The part of a file name after its last dot, unless the name has no dot
/// or its only dot starts it (`Path::extension`).
pub open spec fn extension_of(name: Seq<char>) -> Option<Seq<char>>
    decreases name.len(),
{
    if name.len() == 0 {
        None
    } else if name.last() == '.' {
        if name.len() == 1 {
            None
        } else {
            Some(Seq::empty())
        }
    } else {
        match extension_of(name.drop_last()) {
            Some(e) => Some(e.push(name.last())),
            None => None,
        }
    }
}

/// Whether a directory entry named `name` is an event file (`.jsonl`).
pub fn is_event_file_name(name: &str) -> (r: bool)
    ensures
        r == (extension_of(name@) == Some("jsonl"@)),
{
    let cs = crate::text::chars_of(name);
    let n = cs.len();
    let mut k = n;
    while k > 0 && cs[k - 1] != '.'
        invariant
            k <= n,
            n == cs@.len(),
            forall|j: int| k <= j < n ==> cs@[j] != '.',
        decreases k,
    {
        k = k - 1;
    }
    proof {
        lemma_extension_of(name@, k as int);
    }
    if k <= 1 {
        return false;
    }
    let mut ext: Vec<char> = Vec::new();
    let mut i = k;
    while i < n
        invariant
            k <= i <= n,
            n == cs@.len(),
            ext@ == cs@.subrange(k as int, i as int),
        decreases n - i,
    {
        ext.push(cs[i]);
        assert(cs@.subrange(k as int, i + 1) =~= cs@.subrange(k as int, i as int).push(cs@[i as int]));
        i = i + 1;
    }
    let text = crate::text::string_from_chars(ext.as_slice());
    str_eq(text.as_str(), "jsonl")
}

proof fn lemma_extension_of(name: Seq<char>, k: int)
    requires
        0 <= k <= name.len(),
        k > 0 ==> name[k - 1] == '.',
        forall|j: int| k <= j < name.len() ==> name[j] != '.',
    ensures
        extension_of(name) == if k <= 1 {
            None::<Seq<char>>
        } else {
            Some(name.subrange(k, name.len() as int))
        },
    decreases name.len(),
{
    if name.len() > 0 && name.last() != '.' {
        lemma_extension_of(name.drop_last(), k);
        if k > 1 {
            assert(name.subrange(k, name.len() as int) =~= name.drop_last().subrange(k, name.len() - 1).push(
                name.last(),
            ));
        }
    } else if name.len() > 0 {
        assert(k == name.len());
        assert(name.subrange(k, name.len() as int) =~= Seq::<char>::empty());
    }
}

/// The storage a diagnostics directory uses.
#[derive(Clone, Debug, PartialEq, Eq)]
pub struct CompatibilityDiagnosticsStatus {
    pub directory: String,
    pub files: usize,
    pub bytes: u64,
    pub newest_event: Option<String>,
}

/// The later of two RFC 3339 timestamps by text order (the current one
/// when they tie).
pub open spec fn newest_of(current: Option<String>, candidate: String) -> Option<String> {
    match current {
        None => Some(candidate),
        Some(c) => if crate::sorted_keys::lex_lt(utf8(c@), utf8(candidate@)) {
            Some(candidate)
        } else {
            Some(c)
        },
    }
}

impl CompatibilityDiagnosticsStatus {
    /// The status of a directory with no event file seen yet.
    pub fn new(directory: String) -> (r: Self)
        ensures
            r.directory == directory,
            r.files == 0,
            r.bytes == 0,
            r.newest_event is None,
    {
        CompatibilityDiagnosticsStatus { directory, files: 0, bytes: 0, newest_event: None }
    }

    /// Counts an event file of `bytes` bytes, last modified at the RFC 3339
    /// time `modified` when known.
    pub fn record_file(&mut self, bytes: u64, modified: Option<String>)
        requires
            old(self).files < usize::MAX,
        ensures
            final(self).directory == old(self).directory,
            final(self).files == old(self).files + 1,
            final(self).bytes == sat_add(old(self).bytes, bytes),
            final(self).newest_event == match modified {
                Some(m) => newest_of(old(self).newest_event, m),
                None => old(self).newest_event,
            },
    {
        self.files = self.files + 1;
        self.bytes = if self.bytes <= u64::MAX - bytes {
            self.bytes + bytes
        } else {
            u64::MAX
        };
        match modified {
            Some(m) => {
                let newer = match &self.newest_event {
                    None => true,
                    Some(c) => crate::sorted_keys::bytes_lt(c.as_str().as_bytes(), m.as_str().as_bytes()),
                };
                if newer {
                    self.newest_event = Some(m);
                }
            },
            None => {},
        }
    }
}

/// The moment before which event files expire: `retention_days` days
/// before `now` (the epoch when that is not representable).
pub fn retention_cutoff(now: (i64, u32), retention_days: u16) -> (r: (i64, u32))
    ensures
        now.0 - retention_days * 86400 >= i64::MIN ==> r == (((now.0 - retention_days * 86400) as i64, now.1)),
        now.0 - retention_days * 86400 < i64::MIN ==> r == (0i64, 0u32),
{
    let span = (retention_days as i64) * 86400;
    match now.0.checked_sub(span) {
        Some(s) => (s, now.1),
        None => (0, 0),
    }
}

/// The order in which event files are considered for removal: oldest
/// first (ties keep their listing order).
pub fn oldest_first(modified: &Vec<(i64, u32)>) -> (r: Vec<usize>)
    ensures
        r@.len() == modified@.len(),
        forall|i: int| 0 <= i < r@.len() ==> #[trigger] r@[i] < modified@.len(),
        forall|i: int, j: int| 0 <= i < j < r@.len() ==> r@[i] != r@[j],
        forall|i: int, j: int|
            #![trigger r@[i], r@[j]]
            0 <= i < j < r@.len() ==> instant_nanos(modified@[r@[i] as int]) <= instant_nanos(
                modified@[r@[j] as int],
            ),
{
    let n = modified.len();
    let mut out: Vec<usize> = Vec::new();
    for k in 0..n
        invariant
            n == modified@.len(),
            out@.len() == k,
            forall|i: int| 0 <= i < out@.len() ==> #[trigger] out@[i] < k,
            forall|i: int, j: int| 0 <= i < j < out@.len() ==> out@[i] != out@[j],
            forall|i: int, j: int|
                #![trigger out@[i], out@[j]]
                0 <= i < j < out@.len() ==> instant_nanos(modified@[out@[i] as int]) <= instant_nanos(
                    modified@[out@[j] as int],
                ),
    {
        let m = out.len();
        let mut p: usize = m;
        while p > 0 && instant_before(modified[k], modified[out[p - 1]])
            invariant
                p <= m,
                m == out@.len(),
                k < n,
                n == modified@.len(),
                forall|i: int| 0 <= i < out@.len() ==> #[trigger] out@[i] < k,
                forall|j: int| p <= j < m ==> instant_nanos(modified@[k as int]) < instant_nanos(
                    #[trigger] modified@[out@[j] as int],
                ),
            decreases p,
        {
            p = p - 1;
        }
        let ghost before = out@;
        out.insert(p, k);
        proof {
            assert forall|i: int| 0 <= i < out@.len() implies #[trigger] out@[i] < k + 1 by {
                if i < p {
                    assert(out@[i] == before[i]);
                } else if i > p {
                    assert(out@[i] == before[i - 1]);
                }
            }
            assert forall|i: int, j: int| 0 <= i < j < out@.len() implies out@[i] != out@[j] by {
                if i < p && j > p {
                    assert(out@[i] == before[i] && out@[j] == before[j - 1]);
                } else if i < p && j == p {
                    assert(out@[i] == before[i]);
                } else if i == p {
                    assert(out@[j] == before[j - 1]);
                } else if i > p {
                    assert(out@[i] == before[i - 1] && out@[j] == before[j - 1]);
                } else {
                    assert(out@[i] == before[i] && out@[j] == before[j]);
                }
            }
            assert forall|i: int, j: int|
                #![trigger out@[i], out@[j]]
                0 <= i < j < out@.len() implies instant_nanos(modified@[out@[i] as int]) <= instant_nanos(
                modified@[out@[j] as int],
            ) by {
                if i < p && j > p {
                    assert(out@[i] == before[i] && out@[j] == before[j - 1]);
                } else if i < p && j == p {
                    assert(out@[i] == before[i]);
                    if p > 0 {
                        assert(out@[p - 1] == before[p - 1]);
                    }
                } else if i == p {
                    assert(out@[j] == before[j - 1]);
                } else if i > p {
                    assert(out@[i] == before[i - 1] && out@[j] == before[j - 1]);
                } else {
                    assert(out@[i] == before[i] && out@[j] == before[j]);
                }
            }
        }
    }
    out
}

/// The event files in the order in which cleanup considers them, oldest
/// first: those modified before `cutoff`, which expired, then the others.
pub fn retention_split(modified: &Vec<(i64, u32)>, cutoff: (i64, u32)) -> (r: (Vec<usize>, Vec<usize>))
    ensures
        r.0@.len() + r.1@.len() == modified@.len(),
        forall|i: int| 0 <= i < r.0@.len() ==> #[trigger] r.0@[i] < modified@.len() && instant_nanos(
            modified@[r.0@[i] as int],
        ) < instant_nanos(cutoff),
        forall|i: int| 0 <= i < r.1@.len() ==> #[trigger] r.1@[i] < modified@.len() && instant_nanos(
            modified@[r.1@[i] as int],
        ) >= instant_nanos(cutoff),
        forall|i: int, j: int| 0 <= i < j < (r.0@ + r.1@).len() ==> (r.0@ + r.1@)[i] != (r.0@ + r.1@)[j],
        forall|i: int, j: int|
            #![trigger (r.0@ + r.1@)[i], (r.0@ + r.1@)[j]]
            0 <= i < j < (r.0@ + r.1@).len() ==> instant_nanos(modified@[(r.0@ + r.1@)[i] as int])
                <= instant_nanos(modified@[(r.0@ + r.1@)[j] as int]),
{
    let order = oldest_first(modified);
    let n = order.len();
    let mut k: usize = 0;
    while k < n && instant_before(modified[order[k]], cutoff)
        invariant
            k <= n,
            n == order@.len(),
            n == modified@.len(),
            forall|i: int| 0 <= i < order@.len() ==> #[trigger] order@[i] < modified@.len(),
            forall|i: int| 0 <= i < k ==> instant_nanos(modified@[#[trigger] order@[i] as int]) < instant_nanos(cutoff),
        decreases n - k,
    {
        k = k + 1;
    }
    let mut expired: Vec<usize> = Vec::new();
    let mut retained: Vec<usize> = Vec::new();
    for i in 0..n
        invariant
            n == order@.len(),
            k <= n,
            i <= k ==> expired@ == order@.take(i as int) && retained@.len() == 0,
            i > k ==> expired@ == order@.take(k as int) && retained@ == order@.subrange(k as int, i as int),
    {
        if i < k {
            expired.push(order[i]);
            assert(order@.take(i + 1) =~= order@.take(i as int).push(order@[i as int]));
        } else {
            retained.push(order[i]);
            if i == k {
                assert(retained@ =~= order@.subrange(k as int, i + 1));
            } else {
                assert(order@.subrange(k as int, i + 1) =~= order@.subrange(k as int, i as int).push(
                    order@[i as int],
                ));
            }
        }
    }
    proof {
        if n <= k {
            assert(retained@ =~= order@.subrange(k as int, n as int));
        }
        assert(expired@ + retained@ =~= order@);
        if k < n {
            assert(!(instant_nanos(modified@[order@[k as int] as int]) < instant_nanos(cutoff)));
            assert forall|i: int| 0 <= i < retained@.len() implies #[trigger] retained@[i] < modified@.len()
                && instant_nanos(modified@[retained@[i] as int]) >= instant_nanos(cutoff) by {
                assert(retained@[i] == order@[k + i]);
                if i > 0 {
                    assert(instant_nanos(modified@[order@[k as int] as int]) <= instant_nanos(
                        modified@[order@[k + i] as int],
                    ));
                }
            }
        }
        assert forall|i: int| 0 <= i < expired@.len() implies #[trigger] expired@[i] < modified@.len()
            && instant_nanos(modified@[expired@[i] as int]) < instant_nanos(cutoff) by {
            assert(expired@[i] == order@[i]);
        }
    }
    (expired, retained)
}

/// The removal of the oldest event files while the directory is over its
/// size limit; the caller removes files and reports each removal.
pub struct RetentionSweep {
    pub total: u64,
    pub max_total_bytes: u64,
}

impl RetentionSweep {
    /// A sweep over files that take `total` bytes in all.
    pub fn new(total: u64, max_total_bytes: u64) -> (r: Self)
        ensures
            r.total == total,
            r.max_total_bytes == max_total_bytes,
    {
        RetentionSweep { total, max_total_bytes }
    }

    /// Whether the directory is still over its limit, so that the next
    /// oldest file should go.
    pub fn wants_removal(&self) -> (r: bool)
        ensures
            r == (self.total > self.max_total_bytes),
    {
        self.total > self.max_total_bytes
    }

    /// Takes note that a file of `bytes` bytes was removed.
    pub fn removed(&mut self, bytes: u64)
        ensures
            final(self).max_total_bytes == old(self).max_total_bytes,
            final(self).total == if old(self).total >= bytes {
                (old(self).total - bytes) as u64
            } else {
                0u64
            },
    {
        self.total = if self.total >= bytes {
            self.total - bytes
        } else {
            0
        };
    }
}

/// The folded measurement `after` is the largest of the measurement
/// `before` and the new `value`: at least each one present, equal to one of
/// them, and missing only when both are.
pub open spec fn folds_to_largest(before: Option<u64>, value: Option<u64>, after: Option<u64>) -> bool {
    &&& (before matches Some(b) ==> after matches Some(m) && m >= b)
    &&& (value matches Some(v) ==> after matches Some(m) && m >= v)
    &&& (after matches Some(m) ==> before == Some(m) || value == Some(m))
    &&& (after is None <==> before is None && value is None)
}

/// Law: adding an event keeps each memory measurement of the summary the
/// largest one seen: the new maximum is at least the old one and at least
/// the event's value, and is one of them.
pub proof fn lemma_event_keeps_largest_measurements(
    before: CompatibilityReport,
    after: CompatibilityReport,
    event: CompatibilityEvent,
)
    requires
        event_added(before, after, event),
    ensures
        folds_to_largest(
            before.summary.max_resident_memory_bytes,
            event.resident_memory_bytes,
            after.summary.max_resident_memory_bytes,
        ),
        folds_to_largest(
            before.summary.max_private_commit_bytes,
            event.private_commit_bytes,
            after.summary.max_private_commit_bytes,
        ),
        folds_to_largest(
            before.summary.peak_private_commit_bytes,
            event.peak_private_commit_bytes,
            after.summary.peak_private_commit_bytes,
        ),
{
}

/// Law: the folded maximum never decreases and bounds every value folded
/// into it, whatever order the values come in: folding `x` then `y` gives
/// the same as folding `y` then `x`.
pub proof fn lemma_max_of_order_free(start: Option<u64>, x: Option<u64>, y: Option<u64>)
    ensures
        folds_to_largest(start, x, max_of(start, x)),
        max_of(max_of(start, x), y) == max_of(max_of(start, y), x),
{
}

} // verus!
