//! Bounds runs of consecutive identical tool calls. Only a fixed-size digest
//! of the last call and a counter are kept; the arguments themselves are
//! never retained.
use vstd::prelude::*;
use vstd::string::StringSliceAdditionalSpecFns;

use crate::digest::{sha1, sha1_of};
use crate::text::{bytes_eq, push_str_utf8, str_eq, utf8};

verus! {

broadcast use vstd::string::group_string_axioms;

/// The attempt that is rejected with a recoverable error.
pub const RECOVERABLE_REJECTION_ATTEMPT: usize = 3;

/// The attempt from which the turn is aborted.
pub const FATAL_REJECTION_ATTEMPT: usize = 4;

/// Function arguments longer than this are hashed as written, not in their
/// canonical JSON form.
pub const MAX_CANONICAL_JSON_BYTES: usize = 65536;

/// What happens to an observed call.
#[derive(Clone, Copy, Debug, PartialEq, Eq)]
pub enum ToolCallLoopDecision {
    Allow,
    Reject { attempt: usize },
    Abort { attempt: usize },
}

/// Whether repeated calls are bounded at all.
#[derive(Clone, Copy, Debug, PartialEq, Eq)]
pub enum ToolCallLoopPolicy {
    Disabled,
    ProtectToolCalls,
}

/// A tool's name and, where it has one, its namespace.
#[derive(Clone, Debug)]
pub struct ToolName {
    pub name: String,
    pub namespace: Option<String>,
}

/// The namespace under which a call is identified: its own when it has a
/// non-empty one, else `functions`.
pub open spec fn namespace_of(t: ToolName) -> Seq<char> {
    match t.namespace {
        Some(ns) => if ns@.len() > 0 {
            ns@
        } else {
            "functions"@
        },
        None => "functions"@,
    }
}

/// The tool lives in the default function namespace.
pub open spec fn in_default_namespace(t: ToolName) -> bool {
    namespace_of(t) == "functions"@
}

impl ToolName {
    /// A name in the default namespace.
    pub fn plain(name: &str) -> (r: ToolName)
        ensures
            r.name@ == name@,
            r.namespace is None,
    {
        ToolName { name: name.to_owned(), namespace: None }
    }

    /// A name in the given namespace.
    pub fn namespaced(namespace: &str, name: &str) -> (r: ToolName)
        ensures
            r.name@ == name@,
            r.namespace matches Some(ns) && ns@ == namespace@,
    {
        ToolName { name: name.to_owned(), namespace: Some(namespace.to_owned()) }
    }

    /// Whether the tool lives in the default function namespace.
    pub fn is_default_namespace(&self) -> (r: bool)
        ensures
            r == in_default_namespace(*self),
    {
        match &self.namespace {
            Some(ns) => {
                ns.as_str().is_empty() || str_eq(ns.as_str(), "functions")
            },
            None => true,
        }
    }
}

/// What a call hands to its tool.
#[derive(Clone, Debug)]
pub enum ToolPayload {
    /// JSON arguments of a function tool.
    Function { arguments: String },
    /// The JSON form of a tool-search request.
    ToolSearch { arguments: String },
    /// Free-form input of a custom tool.
    Custom { input: String },
}

/// A tool call as the model issued it.
#[derive(Clone, Debug)]
pub struct ToolCall {
    pub tool_name: ToolName,
    pub call_id: String,
    pub payload: ToolPayload,
}

/// Polling tools (`wait`, `write_stdin`, and an agent wait in the
/// collaboration namespaces) are expected to repeat.
pub open spec fn is_polling(t: ToolName) -> bool {
    ||| in_default_namespace(t) && (t.name@ == "wait"@ || t.name@ == "write_stdin"@)
    ||| (t.namespace matches Some(ns) && (ns@ == "collaboration"@ || ns@ == "multi_agent_v1"@))
        && t.name@ == "wait_agent"@
}

/// Whether the call is to a polling tool.
pub fn is_polling_tool(call: &ToolCall) -> (r: bool)
    ensures
        r == is_polling(call.tool_name),
{
    let name = call.tool_name.name.as_str();
    if call.tool_name.is_default_namespace() && (str_eq(name, "wait") || str_eq(name, "write_stdin")) {
        return true;
    }
    let collaborative = match &call.tool_name.namespace {
        Some(ns) => str_eq(ns.as_str(), "collaboration") || str_eq(ns.as_str(), "multi_agent_v1"),
        None => false,
    };
    collaborative && str_eq(name, "wait_agent")
}

/// The eight little-endian bytes of `n` (the low 64 bits).
pub open spec fn le_bytes(n: nat, k: nat) -> Seq<u8>
    decreases k,
{
    if k == 0 {
        Seq::empty()
    } else {
        seq![(n % 256) as u8] + le_bytes(n / 256, (k - 1) as nat)
    }
}

/// A length-prefixed field: the length as eight little-endian bytes, then
/// the bytes.
pub open spec fn field(b: Seq<u8>) -> Seq<u8> {
    le_bytes(b.len(), 8) + b
}

/// Names the compact re-serialisation (`serde_json::to_vec`) of the JSON
/// value that `text` parses to (`serde_json::from_str::<Value>`), or `None`
/// where the text is not JSON.
pub uninterp spec fn canonical_json(text: Seq<char>) -> Option<Seq<u8>>;

/// Calls `serde_json::from_str::<serde_json::Value>` and then
/// `serde_json::to_vec` on the parsed value. The contract claims only that
/// the result is the named `canonical_json` of the text.
#[verifier::external_body]
fn canonical_json_bytes(text: &str) -> (r: Option<Vec<u8>>)
    ensures
        match r {
            Some(v) => canonical_json(text@) == Some(v@),
            None => canonical_json(text@) is None,
        },
{
    serde_json::from_str::<serde_json::Value>(text).ok().and_then(|value| serde_json::to_vec(&value).ok())
}

/// The bytes under which function arguments are identified: their canonical
/// JSON form when they are at most 64 KiB of JSON, else the text itself.
pub open spec fn argument_bytes(arguments: Seq<char>) -> Seq<u8> {
    if utf8(arguments).len() <= MAX_CANONICAL_JSON_BYTES && canonical_json(arguments) is Some {
        canonical_json(arguments)->0
    } else {
        utf8(arguments)
    }
}

/// The payload's part of a call's identity: a tag byte, then the payload as a
/// field.
pub open spec fn payload_part(p: ToolPayload) -> Seq<u8> {
    match p {
        ToolPayload::Function { arguments } => seq![0u8] + field(argument_bytes(arguments@)),
        ToolPayload::ToolSearch { arguments } => seq![1u8] + field(utf8(arguments@)),
        ToolPayload::Custom { input } => seq![2u8] + field(utf8(input@)),
    }
}

/// The bytes that identify a call: namespace, name and payload.
pub open spec fn call_identity(call: ToolCall) -> Seq<u8> {
    field(utf8(namespace_of(call.tool_name))) + field(utf8(call.tool_name.name@)) + payload_part(
        call.payload,
    )
}

/// A call's fingerprint: the SHA-1 of its identity.
pub open spec fn call_fingerprint(call: ToolCall) -> Seq<u8> {
    sha1_of(call_identity(call))
}

fn push_le_bytes(out: &mut Vec<u8>, n: usize)
    ensures
        final(out)@ == old(out)@ + le_bytes(n as nat, 8),
{
    let mut v: u64 = n as u64;
    let ghost start = old(out)@;
    let mut i: usize = 0;
    while i < 8
        invariant
            i <= 8,
            out@ + le_bytes(v as nat, (8 - i) as nat) == start + le_bytes(n as nat, 8),
        decreases 8 - i,
    {
        let ghost before = out@;
        proof {
            assert(le_bytes(v as nat, (8 - i) as nat) == seq![(v as nat % 256) as u8] + le_bytes(
                v as nat / 256,
                (8 - i - 1) as nat,
            ));
        }
        out.push((v % 256) as u8);
        proof {
            assert(out@ + le_bytes((v / 256) as nat, (8 - (i + 1)) as nat) =~= before + le_bytes(
                v as nat,
                (8 - i) as nat,
            ));
        }
        v = v / 256;
        i = i + 1;
    }
    proof {
        assert(le_bytes(v as nat, 0) =~= Seq::<u8>::empty());
        assert(out@ + le_bytes(v as nat, 0) =~= out@);
    }
}

fn push_field(out: &mut Vec<u8>, b: &[u8])
    ensures
        final(out)@ == old(out)@ + field(b@),
{
    push_le_bytes(out, b.len());
    let ghost mid = out@;
    let n = b.len();
    for i in 0..n
        invariant
            n == b@.len(),
            out@ == mid + b@.take(i as int),
    {
        out.push(b[i]);
        assert(b@.take(i + 1) =~= b@.take(i as int).push(b@[i as int]));
    }
    assert(b@.take(n as int) =~= b@);
    assert(out@ =~= old(out)@ + field(b@));
}

fn push_str_field(out: &mut Vec<u8>, s: &str)
    ensures
        final(out)@ == old(out)@ + field(utf8(s@)),
{
    push_field(out, s.as_bytes());
}

/// The bytes that identify a call.
pub fn identity(call: &ToolCall) -> (r: Vec<u8>)
    ensures
        r@ == call_identity(*call),
{
    let mut out: Vec<u8> = Vec::new();
    match &call.tool_name.namespace {
        Some(ns) => {
            if !ns.as_str().is_empty() {
                push_str_field(&mut out, ns.as_str());
            } else {
                push_str_field(&mut out, "functions");
            }
        },
        None => push_str_field(&mut out, "functions"),
    }
    assert(out@ == field(utf8(namespace_of(call.tool_name))));
    push_str_field(&mut out, call.tool_name.name.as_str());
    let ghost head = out@;
    match &call.payload {
        ToolPayload::Function { arguments } => {
            out.push(0u8);
            let text = arguments.as_str();
            let canonical = if text.as_bytes().len() <= MAX_CANONICAL_JSON_BYTES {
                canonical_json_bytes(text)
            } else {
                None
            };
            match canonical {
                Some(c) => push_field(&mut out, c.as_slice()),
                None => push_str_field(&mut out, text),
            }
            assert(out@ == head + payload_part(call.payload));
        },
        ToolPayload::ToolSearch { arguments } => {
            out.push(1u8);
            push_str_field(&mut out, arguments.as_str());
        },
        ToolPayload::Custom { input } => {
            out.push(2u8);
            push_str_field(&mut out, input.as_str());
        },
    }
    assert(out@ =~= call_identity(*call));
    out
}

/// A call's fingerprint.
pub fn fingerprint(call: &ToolCall) -> (r: Vec<u8>)
    ensures
        r@ == call_fingerprint(*call),
        r@.len() == 20,
{
    let id = identity(call);
    sha1(id.as_slice())
}

/// The fingerprint a detector remembers, as a byte sequence.
pub open spec fn remembered(f: Option<Vec<u8>>) -> Option<Seq<u8>> {
    match f {
        Some(v) => Some(v@),
        None => None,
    }
}

/// The run length after a call with fingerprint `fp`: one more when it
/// repeats the remembered call (saturating), else one.
pub open spec fn next_count(previous: Option<Seq<u8>>, count: usize, fp: Seq<u8>) -> usize {
    if previous == Some(fp) {
        if count < usize::MAX {
            (count + 1) as usize
        } else {
            count
        }
    } else {
        1
    }
}

/// The decision for the `count`-th consecutive identical call.
pub open spec fn decision_for(count: usize) -> ToolCallLoopDecision {
    if count >= FATAL_REJECTION_ATTEMPT {
        ToolCallLoopDecision::Abort { attempt: count }
    } else if count == RECOVERABLE_REJECTION_ATTEMPT {
        ToolCallLoopDecision::Reject { attempt: count }
    } else {
        ToolCallLoopDecision::Allow
    }
}

/// What a detector holds: its policy, the fingerprint of the last call and
/// the length of the current run.
pub ghost struct DetectorState {
    pub policy: ToolCallLoopPolicy,
    pub remembered: Option<Seq<u8>>,
    pub count: usize,
}

/// The detector's state after observing `call`, and its decision.
pub open spec fn observed(s: DetectorState, call: ToolCall) -> (DetectorState, ToolCallLoopDecision) {
    if s.policy == ToolCallLoopPolicy::Disabled || is_polling(call.tool_name) {
        (DetectorState { policy: s.policy, remembered: None, count: 0 }, ToolCallLoopDecision::Allow)
    } else {
        let n = next_count(s.remembered, s.count, call_fingerprint(call));
        (DetectorState { policy: s.policy, remembered: Some(call_fingerprint(call)), count: n }, decision_for(n))
    }
}

/// The state after observing `calls` in order, and the decision on each.
pub open spec fn observed_all(s: DetectorState, calls: Seq<ToolCall>) -> (DetectorState, Seq<ToolCallLoopDecision>)
    decreases calls.len(),
{
    if calls.len() == 0 {
        (s, Seq::empty())
    } else {
        let (t, ds) = observed_all(s, calls.drop_last());
        let (u, d) = observed(t, calls.last());
        (u, ds.push(d))
    }
}

/// Bounds consecutive identical direct tool calls within a user turn.
pub struct ToolCallLoopDetector {
    pub policy: ToolCallLoopPolicy,
    pub fingerprint: Option<Vec<u8>>,
    pub consecutive_count: usize,
}

impl View for ToolCallLoopDetector {
    type V = DetectorState;

    open spec fn view(&self) -> DetectorState {
        DetectorState {
            policy: self.policy,
            remembered: remembered(self.fingerprint),
            count: self.consecutive_count,
        }
    }
}

impl ToolCallLoopDetector {
    /// A detector that has seen no call.
    pub fn new(policy: ToolCallLoopPolicy) -> (r: Self)
        ensures
            r.policy == policy,
            r.fingerprint is None,
            r.consecutive_count == 0,
    {
        ToolCallLoopDetector { policy, fingerprint: None, consecutive_count: 0 }
    }

    /// Forgets the last call.
    pub fn reset(&mut self)
        ensures
            final(self).policy == old(self).policy,
            final(self).fingerprint is None,
            final(self).consecutive_count == 0,
    {
        self.fingerprint = None;
        self.consecutive_count = 0;
    }

    /// Observes a call and decides on it. With the policy disabled, or for a
    /// polling tool, the call is allowed and the run forgotten. Otherwise the
    /// run of identical calls grows (or restarts at one for a different call)
    /// and its third call is rejected, the fourth and later abort.
    pub fn observe(&mut self, call: &ToolCall) -> (r: ToolCallLoopDecision)
        ensures
            final(self).policy == old(self).policy,
            old(self).policy == ToolCallLoopPolicy::Disabled || is_polling(call.tool_name) ==> {
                &&& final(self).fingerprint is None
                &&& final(self).consecutive_count == 0
                &&& r == ToolCallLoopDecision::Allow
            },
            !(old(self).policy == ToolCallLoopPolicy::Disabled || is_polling(call.tool_name)) ==> {
                &&& remembered(final(self).fingerprint) == Some(call_fingerprint(*call))
                &&& final(self).consecutive_count == next_count(
                    remembered(old(self).fingerprint),
                    old(self).consecutive_count,
                    call_fingerprint(*call),
                )
                &&& r == decision_for(final(self).consecutive_count)
            },
            (final(self)@, r) == observed(old(self)@, *call),
    {
        let disabled = match self.policy {
            ToolCallLoopPolicy::Disabled => true,
            ToolCallLoopPolicy::ProtectToolCalls => false,
        };
        if disabled || is_polling_tool(call) {
            self.reset();
            return ToolCallLoopDecision::Allow;
        }
        let fp = fingerprint(call);
        let same = match &self.fingerprint {
            Some(previous) => bytes_eq(previous.as_slice(), fp.as_slice()),
            None => false,
        };
        if same {
            if self.consecutive_count < usize::MAX {
                self.consecutive_count = self.consecutive_count + 1;
            }
        } else {
            self.consecutive_count = 1;
        }
        self.fingerprint = Some(fp);
        let count = self.consecutive_count;
        if count >= FATAL_REJECTION_ATTEMPT {
            ToolCallLoopDecision::Abort { attempt: count }
        } else if count == RECOVERABLE_REJECTION_ATTEMPT {
            ToolCallLoopDecision::Reject { attempt: count }
        } else {
            ToolCallLoopDecision::Allow
        }
    }
}

/// The run length after `n` consecutive calls with fingerprint `fp`, starting
/// from a detector that remembers `previous` with run length `count`.
pub open spec fn run_count(previous: Option<Seq<u8>>, count: usize, fp: Seq<u8>, n: nat) -> usize
    decreases n,
{
    if n <= 1 {
        next_count(previous, count, fp)
    } else {
        next_count(Some(fp), run_count(previous, count, fp, (n - 1) as nat), fp)
    }
}

/// Law: starting from a detector that remembers no call, or another call,
/// `n` consecutive identical calls make a run of length `n`: the first two
/// are allowed, the third is rejected with a recoverable error, and the
/// fourth and every later one abort.
pub proof fn lemma_identical_calls_escalate(previous: Option<Seq<u8>>, count: usize, fp: Seq<u8>, n: nat)
    requires
        previous != Some(fp),
        1 <= n <= usize::MAX,
    ensures
        run_count(previous, count, fp, n) == n,
        n <= 2 ==> decision_for(run_count(previous, count, fp, n)) == ToolCallLoopDecision::Allow,
        n == 3 ==> decision_for(run_count(previous, count, fp, n)) == (ToolCallLoopDecision::Reject {
            attempt: 3,
        }),
        n >= 4 ==> decision_for(run_count(previous, count, fp, n)) == (ToolCallLoopDecision::Abort {
            attempt: n as usize,
        }),
    decreases n,
{
    if n > 1 {
        lemma_identical_calls_escalate(previous, count, fp, (n - 1) as nat);
    }
}

/// Law: on a protecting detector whose last call differs (a new detector
/// remembers none), a run of non-polling calls that are all identical (one
/// fingerprint) is decided call by call: the first two are allowed, the third
/// is rejected as attempt 3, and the `i`-th from the fourth on aborts as
/// attempt `i`.
pub proof fn lemma_identical_run_decisions(s: DetectorState, calls: Seq<ToolCall>, fp: Seq<u8>)
    requires
        s.policy == ToolCallLoopPolicy::ProtectToolCalls,
        s.remembered != Some(fp),
        calls.len() <= usize::MAX,
        forall|i: int| 0 <= i < calls.len() ==> !is_polling((#[trigger] calls[i]).tool_name) && call_fingerprint(
            calls[i],
        ) == fp,
    ensures
        observed_all(s, calls).1.len() == calls.len(),
        calls.len() > 0 ==> observed_all(s, calls).0.count == calls.len(),
        observed_all(s, calls).0.policy == s.policy,
        calls.len() > 0 ==> observed_all(s, calls).0.remembered == Some(fp),
        forall|i: int|
            0 <= i < calls.len() ==> #[trigger] observed_all(s, calls).1[i] == if i + 1 <= 2 {
                ToolCallLoopDecision::Allow
            } else if i + 1 == 3 {
                ToolCallLoopDecision::Reject { attempt: 3 }
            } else {
                ToolCallLoopDecision::Abort { attempt: (i + 1) as usize }
            },
    decreases calls.len(),
{
    if calls.len() > 0 {
        let prefix = calls.drop_last();
        assert forall|i: int| 0 <= i < prefix.len() implies !is_polling((#[trigger] prefix[i]).tool_name)
            && call_fingerprint(prefix[i]) == fp by {
            assert(prefix[i] == calls[i]);
        }
        lemma_identical_run_decisions(s, prefix, fp);
        let (t, ds) = observed_all(s, prefix);
        let last = calls[calls.len() - 1];
        assert(!is_polling(last.tool_name) && call_fingerprint(last) == fp);
        if prefix.len() > 0 {
            assert(t.remembered == Some(fp));
        }
        assert(t.policy == ToolCallLoopPolicy::ProtectToolCalls);
    }
}

/// Law: a call that differs from the remembered one starts a new run of
/// length one, and is allowed.
pub proof fn lemma_changed_call_restarts(previous: Seq<u8>, count: usize, fp: Seq<u8>)
    requires
        previous != fp,
    ensures
        next_count(Some(previous), count, fp) == 1,
        decision_for(next_count(Some(previous), count, fp)) == ToolCallLoopDecision::Allow,
{
}

/// Law: two calls to the same tool in the default namespace (whether the
/// namespace is written out or not) whose arguments have the same canonical
/// JSON form have the same fingerprint.
pub proof fn lemma_default_namespace_and_canonical_arguments_agree(a: ToolCall, b: ToolCall)
    requires
        a.tool_name.name@ == b.tool_name.name@,
        in_default_namespace(a.tool_name),
        in_default_namespace(b.tool_name),
        a.payload matches ToolPayload::Function { arguments: x } && b.payload matches ToolPayload::Function {
            arguments: y,
        } && argument_bytes(x@) == argument_bytes(y@),
    ensures
        call_fingerprint(a) == call_fingerprint(b),
{
    assert(call_identity(a) =~= call_identity(b));
}

} // verus!
