//! Answers to a user-input request from external hook commands: which
//! command output counts as a complete answer, and how each run is reported.
use vstd::prelude::*;
use vstd::string::StringSliceAdditionalSpecFns;

use crate::lines::{trim, trim_str};
use crate::text::str_eq;

verus! {

broadcast use vstd::string::group_string_axioms;

/// The most output kept per stream of a hook command.
pub const MAX_OUTPUT_BYTES_PER_STREAM: usize = 65536;

/// A question put to the user.
#[derive(Clone, Debug, PartialEq, Eq)]
pub struct RequestUserInputQuestion {
    pub id: String,
    pub header: String,
    pub question: String,
    pub is_other: bool,
    pub is_secret: bool,
}

/// How a hook command ran.
#[derive(Clone, Debug, PartialEq, Eq)]
pub struct HandlerRunResult {
    pub started_at: i64,
    pub completed_at: i64,
    pub duration_ms: i64,
    pub exit_code: Option<i32>,
    pub stdout: String,
    pub stderr: String,
    pub error: Option<String>,
}

/// The answers a hook returned, question id by question id (no id twice).
pub type AnswerEntries = Vec<(String, Vec<String>)>;

/// A JSON whitespace character: space, tab, line feed or carriage return.
pub open spec fn is_json_whitespace(c: char) -> bool {
    c == ' ' || c == '\t' || c == '\n' || c == '\r'
}

/// Every character is JSON whitespace.
pub open spec fn all_json_whitespace(s: Seq<char>) -> bool {
    forall|k: int| 0 <= k < s.len() ==> is_json_whitespace(#[trigger] s[k])
}

/// The text is an empty JSON object: a pair of braces with nothing but JSON
/// whitespace before, between and after them.
pub open spec fn empty_object_text(t: Seq<char>) -> bool {
    exists|i: int, j: int|
        0 <= i < j < t.len() && t[i] == '{' && t[j] == '}' && all_json_whitespace(#[trigger] t.take(i))
            && all_json_whitespace(#[trigger] t.subrange(i + 1, j)) && all_json_whitespace(t.skip(j + 1))
}

/// Names the number of members of the JSON object in the text (`None` when
/// `serde_json::from_str::<serde_json::Value>` does not give an object).
pub uninterp spec fn json_object_members(text: Seq<char>) -> Option<usize>;

/// Calls `serde_json::from_str::<serde_json::Value>` and gives the number of
/// members of the object it parsed, if it parsed one. The contract claims
/// that the result is the named `json_object_members` of the text, and that
/// it is an object without members exactly when the text is a pair of braces
/// with only JSON whitespace around and between them (serde_json skips that
/// whitespace before a value, inside an object and at the end, and refuses
/// anything else there).
#[verifier::external_body]
fn json_object_len(text: &str) -> (r: Option<usize>)
    ensures
        r == json_object_members(text@),
        r == Some(0usize) <==> empty_object_text(text@),
{
    match serde_json::from_str::<serde_json::Value>(text) {
        Ok(serde_json::Value::Object(object)) => Some(object.len()),
        _ => None,
    }
}

/// Output that declines to answer: blank, or an empty JSON object.
pub open spec fn unhandled(stdout: Seq<char>) -> bool {
    let t = trim(stdout);
    t.len() == 0 || empty_object_text(t)
}

/// Whether the output declines to answer.
pub fn is_unhandled_stdout(stdout: &str) -> (r: bool)
    ensures
        r == unhandled(stdout@),
{
    let t = trim_str(stdout);
    if t.as_str().is_empty() {
        return true;
    }
    match json_object_len(t.as_str()) {
        Some(n) => n == 0,
        None => false,
    }
}

/// The run failed: it reported an error or did not exit with status zero.
pub open spec fn run_failed(run: HandlerRunResult) -> bool {
    run.error is Some || run.exit_code != Some(0i32)
}

/// The answer entries as id and values.
pub open spec fn entry_views(es: Seq<(String, Vec<String>)>) -> Seq<(Seq<char>, Seq<Seq<char>>)> {
    es.map_values(|e: (String, Vec<String>)| (e.0@, e.1@.map_values(|s: String| s@)))
}

/// The entry for a question, if any.
pub open spec fn has_complete_answer(es: Seq<(Seq<char>, Seq<Seq<char>>)>, id: Seq<char>) -> bool {
    exists|i: int|
        0 <= i < es.len() && (#[trigger] es[i]).0 == id && es[i].1.len() > 0 && forall|k: int|
            0 <= k < es[i].1.len() ==> trim(#[trigger] es[i].1[k]).len() > 0
}

/// The answers are a complete response: one per question, none blank.
pub open spec fn complete_response(questions: Seq<RequestUserInputQuestion>, es: Seq<(Seq<char>, Seq<Seq<char>>)>) -> bool {
    &&& questions.len() > 0
    &&& es.len() == questions.len()
    &&& forall|q: int| 0 <= q < questions.len() ==> has_complete_answer(es, (#[trigger] questions[q]).id@)
}

/// No two entries share an id.
pub open spec fn distinct_ids(es: Seq<(Seq<char>, Seq<Seq<char>>)>) -> bool {
    forall|i: int, j: int| 0 <= i < j < es.len() ==> es[i].0 != es[j].0
}

fn answer_complete(values: &Vec<String>) -> (r: bool)
    ensures
        r == (values@.len() > 0 && forall|k: int| 0 <= k < values@.len() ==> trim(#[trigger] values@[k]@).len() > 0),
{
    if values.len() == 0 {
        return false;
    }
    let n = values.len();
    for k in 0..n
        invariant
            n == values@.len(),
            forall|j: int| 0 <= j < k ==> trim(#[trigger] values@[j]@).len() > 0,
    {
        if trim_str(values[k].as_str()).as_str().is_empty() {
            return false;
        }
    }
    true
}

/// The response of a hook run, given the answers parsed from its trimmed
/// output (`None` when that output is not a valid answer document): nothing
/// when the run failed or declined, or when the answers are not exactly one
/// complete answer per question; else the answers.
pub fn parse_response(
    questions: &Vec<RequestUserInputQuestion>,
    run: &HandlerRunResult,
    parsed: Option<AnswerEntries>,
) -> (r: Option<AnswerEntries>)
    requires
        parsed matches Some(es) ==> distinct_ids(entry_views(es@)),
    ensures
        match r {
            Some(es) => {
                &&& !run_failed(*run)
                &&& !unhandled(run.stdout@)
                &&& parsed == Some(es)
                &&& complete_response(questions@, entry_views(es@))
            },
            None => run_failed(*run) || unhandled(run.stdout@) || parsed is None || !complete_response(
                questions@,
                entry_views(parsed->0@),
            ),
        },
{
    let failed = match (&run.error, run.exit_code) {
        (None, Some(0)) => false,
        _ => true,
    };
    if failed {
        return None;
    }
    if is_unhandled_stdout(run.stdout.as_str()) {
        return None;
    }
    let es = match parsed {
        Some(es) => es,
        None => {
            return None;
        },
    };
    let ghost ev = entry_views(es@);
    if es.len() != questions.len() || questions.len() == 0 {
        return None;
    }
    let nq = questions.len();
    for q in 0..nq
        invariant
            nq == questions@.len(),
            ev == entry_views(es@),
            parsed == Some(es),
            forall|p: int| 0 <= p < q ==> has_complete_answer(ev, (#[trigger] questions@[p]).id@),
            distinct_ids(ev),
    {
        let id = questions[q].id.as_str();
        let ne = es.len();
        let mut found: Option<usize> = None;
        for i in 0..ne
            invariant
                ne == es@.len(),
                ev == entry_views(es@),
                found is None ==> forall|j: int| 0 <= j < i ==> ev[j].0 != id@,
                found matches Some(f) ==> f < ne && ev[f as int].0 == id@,
        {
            if found.is_none() && str_eq(es[i].0.as_str(), id) {
                found = Some(i);
            }
        }
        match found {
            None => {
                proof {
                    assert(!has_complete_answer(ev, questions@[q as int].id@));
                }
                return None;
            },
            Some(f) => {
                let complete = answer_complete(&es[f].1);
                proof {
                    assert(ev[f as int].1 == es@[f as int].1@.map_values(|s: String| s@));
                    assert forall|k: int| 0 <= k < es@[f as int].1@.len() implies ev[f as int].1[k] == es@[f as int].1@[k]@ by {
                    }
                }
                if !complete {
                    proof {
                        let vals = es@[f as int].1@;
                        let qid = questions@[q as int].id@;
                        assert(ev[f as int].1.len() == vals.len());
                        if has_complete_answer(ev, qid) {
                            let w = choose|w: int|
                                0 <= w < ev.len() && (#[trigger] ev[w]).0 == qid && ev[w].1.len() > 0
                                    && forall|k: int| 0 <= k < ev[w].1.len() ==> trim(#[trigger] ev[w].1[k]).len() > 0;
                            if w != f as int {
                                if w < f as int {
                                    assert(ev[w].0 != ev[f as int].0);
                                } else {
                                    assert(ev[f as int].0 != ev[w].0);
                                }
                            }
                            assert(w == f as int);
                            assert forall|k: int| 0 <= k < vals.len() implies trim(#[trigger] vals[k]@).len() > 0 by {
                                assert(ev[w].1[k] == vals[k]@);
                            }
                            assert(false);
                        }
                    }
                    return None;
                }
                proof {
                    assert(ev[f as int].0 == questions@[q as int].id@);
                    assert(has_complete_answer(ev, questions@[q as int].id@));
                }
            },
        }
    }
    Some(es)
}

/// How a hook run ended.
#[derive(Clone, Copy, Debug, PartialEq, Eq)]
pub enum HookRunStatus {
    Completed,
    Failed,
}

/// How a hook run is reported: a failed run, a run that answered or
/// declined, or a run whose output was not a valid answer; with the error
/// text to show, if any.
pub fn completion_status(run: &HandlerRunResult, handled: bool) -> (r: (HookRunStatus, Option<&'static str>))
    ensures
        run_failed(*run) ==> r.0 == HookRunStatus::Failed && (r.1 matches Some(t) && t@
            == "user input hook execution failed"@),
        !run_failed(*run) && (handled || unhandled(run.stdout@)) ==> r.0 == HookRunStatus::Completed
            && r.1 is None,
        !run_failed(*run) && !(handled || unhandled(run.stdout@)) ==> r.0 == HookRunStatus::Failed && (
        r.1 matches Some(t) && t@ == "user input hook returned an invalid response"@),
{
    let failed = match (&run.error, run.exit_code) {
        (None, Some(0)) => false,
        _ => true,
    };
    if failed {
        (HookRunStatus::Failed, Some("user input hook execution failed"))
    } else if handled || is_unhandled_stdout(run.stdout.as_str()) {
        (HookRunStatus::Completed, None)
    } else {
        (HookRunStatus::Failed, Some("user input hook returned an invalid response"))
    }
}

/// The report of a run: its status and error text, given whether its
/// answers were taken.
pub open spec fn completion_of(run: HandlerRunResult, handled: bool) -> (HookRunStatus, Option<Seq<char>>) {
    if run_failed(run) {
        (HookRunStatus::Failed, Some("user input hook execution failed"@))
    } else if handled || unhandled(run.stdout@) {
        (HookRunStatus::Completed, None)
    } else {
        (HookRunStatus::Failed, Some("user input hook returned an invalid response"@))
    }
}

/// The run answered the request: it succeeded, did not decline, and its
/// parsed answers are a complete response.
pub open spec fn answered(questions: Seq<RequestUserInputQuestion>, run: HandlerRunResult, parsed: Option<AnswerEntries>) -> bool {
    &&& !run_failed(run)
    &&& !unhandled(run.stdout@)
    &&& parsed is Some
    &&& complete_response(questions, entry_views(parsed->0@))
}

/// Handler `a` comes before handler `b`: by display order, then by position.
pub open spec fn runs_before(orders: Seq<i64>, a: usize, b: usize) -> bool {
    orders[a as int] < orders[b as int] || (orders[a as int] == orders[b as int] && a < b)
}

/// The order in which the handlers run: by display order, keeping their
/// listed order among equal display orders.
pub fn handler_order(display_orders: &Vec<i64>) -> (r: Vec<usize>)
    ensures
        r@.len() == display_orders@.len(),
        forall|i: int| 0 <= i < r@.len() ==> #[trigger] r@[i] < display_orders@.len(),
        forall|i: int, j: int|
            #![trigger r@[i], r@[j]]
            0 <= i < j < r@.len() ==> runs_before(display_orders@, r@[i], r@[j]),
{
    let n = display_orders.len();
    let mut out: Vec<usize> = Vec::new();
    for k in 0..n
        invariant
            n == display_orders@.len(),
            out@.len() == k,
            forall|i: int| 0 <= i < out@.len() ==> #[trigger] out@[i] < k,
            forall|i: int, j: int|
                #![trigger out@[i], out@[j]]
                0 <= i < j < out@.len() ==> runs_before(display_orders@, out@[i], out@[j]),
    {
        let m = out.len();
        let mut p: usize = m;
        while p > 0 && display_orders[k] < display_orders[out[p - 1]]
            invariant
                p <= m,
                m == out@.len(),
                k < n,
                n == display_orders@.len(),
                forall|i: int| 0 <= i < out@.len() ==> #[trigger] out@[i] < k,
                forall|j: int| p <= j < m ==> display_orders@[k as int] < #[trigger] display_orders@[out@[j] as int],
            decreases p,
        {
            p = p - 1;
        }
        let ghost before = out@;
        proof {
            if p > 0 {
                assert(display_orders@[before[p - 1] as int] <= display_orders@[k as int]);
                assert forall|i: int| 0 <= i < p implies display_orders@[#[trigger] before[i] as int]
                    <= display_orders@[k as int] by {
                    if i < p - 1 {
                        assert(runs_before(display_orders@, before[i], before[p - 1]));
                    }
                }
            }
        }
        out.insert(p, k);
        proof {
            assert forall|i: int| 0 <= i < out@.len() implies #[trigger] out@[i] < k + 1 by {
                if i < p {
                    assert(out@[i] == before[i]);
                } else if i > p {
                    assert(out@[i] == before[i - 1]);
                }
            }
            assert forall|i: int, j: int|
                #![trigger out@[i], out@[j]]
                0 <= i < j < out@.len() implies runs_before(display_orders@, out@[i], out@[j]) by {
                if i < p && j > p {
                    assert(out@[i] == before[i] && out@[j] == before[j - 1]);
                } else if i < p && j == p {
                    assert(out@[i] == before[i]);
                    assert(display_orders@[before[i] as int] <= display_orders@[k as int]);
                } else if i == p {
                    assert(out@[j] == before[j - 1]);
                } else if i > p {
                    assert(out@[i] == before[i - 1] && out@[j] == before[j - 1]);
                } else {
                    assert(out@[i] == before[i] && out@[j] == before[j]);
                }
            }
        }
    }
    out
}

/// A request for answers from the user-input hooks.
pub struct UserInputRequestRequest {
    pub session_id: String,
    pub turn_id: String,
    pub cwd: String,
    pub transcript_path: Option<String>,
    pub call_id: String,
    pub questions: Vec<RequestUserInputQuestion>,
    pub is_blocking: bool,
}

/// The report of one hook run.
#[derive(Clone, Debug, PartialEq, Eq)]
pub struct HookCompletedEvent {
    pub turn_id: String,
    pub status: HookRunStatus,
    /// The error entry of the report, if any.
    pub error: Option<String>,
}

/// A report as its turn, status and error text.
pub open spec fn event_view(e: HookCompletedEvent) -> (Seq<char>, HookRunStatus, Option<Seq<char>>) {
    (
        e.turn_id@,
        e.status,
        match e.error {
            Some(t) => Some(t@),
            None => None,
        },
    )
}

/// What the hooks produced: one report per run, and the answers of the run
/// that answered, if one did.
pub struct UserInputRequestOutcome {
    pub hook_events: Vec<HookCompletedEvent>,
    pub response: Option<AnswerEntries>,
}

/// The reports and response of an outcome.
pub open spec fn outcome_view(o: UserInputRequestOutcome) -> (Seq<(Seq<char>, HookRunStatus, Option<Seq<char>>)>, Option<AnswerEntries>) {
    (o.hook_events@.map_values(|e: HookCompletedEvent| event_view(e)), o.response)
}

/// The outcome after one more run.
pub open spec fn run_step(
    o: (Seq<(Seq<char>, HookRunStatus, Option<Seq<char>>)>, Option<AnswerEntries>),
    turn_id: Seq<char>,
    questions: Seq<RequestUserInputQuestion>,
    run: HandlerRunResult,
    parsed: Option<AnswerEntries>,
) -> (Seq<(Seq<char>, HookRunStatus, Option<Seq<char>>)>, Option<AnswerEntries>) {
    let handled = answered(questions, run, parsed);
    let c = completion_of(run, handled);
    (o.0.push((turn_id, c.0, c.1)), if handled {
        parsed
    } else {
        None
    })
}

/// The outcome of handlers that ran in order with these results: each runs
/// only while no earlier run answered.
pub open spec fn runs_outcome(
    turn_id: Seq<char>,
    questions: Seq<RequestUserInputQuestion>,
    runs: Seq<(HandlerRunResult, Option<AnswerEntries>)>,
) -> (Seq<(Seq<char>, HookRunStatus, Option<Seq<char>>)>, Option<AnswerEntries>)
    decreases runs.len(),
{
    if runs.len() == 0 {
        (Seq::empty(), None)
    } else {
        let before = runs_outcome(turn_id, questions, runs.drop_last());
        if before.1 is Some {
            before
        } else {
            run_step(before, turn_id, questions, runs.last().0, runs.last().1)
        }
    }
}

impl UserInputRequestOutcome {
    /// The outcome before any handler ran.
    pub fn new() -> (r: Self)
        ensures
            r.hook_events@.len() == 0,
            r.response is None,
    {
        UserInputRequestOutcome { hook_events: Vec::new(), response: None }
    }

    /// Takes the next handler's run, with the answers parsed from its
    /// trimmed output, and reports it; returns whether the run answered the
    /// request, after which no further handler is to run.
    pub fn record_run(
        &mut self,
        turn_id: &str,
        questions: &Vec<RequestUserInputQuestion>,
        run: &HandlerRunResult,
        parsed: Option<AnswerEntries>,
    ) -> (done: bool)
        requires
            old(self).response is None,
            parsed matches Some(es) ==> distinct_ids(entry_views(es@)),
        ensures
            outcome_view(*final(self)) == run_step(outcome_view(*old(self)), turn_id@, questions@, *run, parsed),
            done == answered(questions@, *run, parsed),
            done == final(self).response is Some,
    {
        let ghost before = outcome_view(*self);
        let ghost given = parsed;
        let response = parse_response(questions, run, parsed);
        let handled = response.is_some();
        let (status, error) = completion_status(run, handled);
        let event = HookCompletedEvent {
            turn_id: turn_id.to_owned(),
            status,
            error: match error {
                Some(t) => Some(t.to_owned()),
                None => None,
            },
        };
        proof {
            assert(handled == answered(questions@, *run, given));
            assert(event_view(event) == (turn_id@, completion_of(*run, handled).0, completion_of(
                *run,
                handled,
            ).1));
        }
        self.hook_events.push(event);
        self.response = response;
        assert(outcome_view(*self).0 =~= before.0.push(event_view(event)));
        handled
    }
}

proof fn lemma_unanswered_prefix(
    turn_id: Seq<char>,
    questions: Seq<RequestUserInputQuestion>,
    runs: Seq<(HandlerRunResult, Option<AnswerEntries>)>,
)
    requires
        forall|j: int| 0 <= j < runs.len() ==> !answered(questions, (#[trigger] runs[j]).0, runs[j].1),
    ensures
        runs_outcome(turn_id, questions, runs).1 is None,
        runs_outcome(turn_id, questions, runs).0.len() == runs.len(),
        forall|j: int|
            0 <= j < runs.len() ==> #[trigger] runs_outcome(turn_id, questions, runs).0[j] == (
                turn_id,
                completion_of(runs[j].0, false).0,
                completion_of(runs[j].0, false).1,
            ),
    decreases runs.len(),
{
    if runs.len() > 0 {
        let prefix = runs.drop_last();
        assert forall|j: int| 0 <= j < prefix.len() implies !answered(questions, (#[trigger] prefix[j]).0, prefix[j].1) by {
            assert(prefix[j] == runs[j]);
        }
        lemma_unanswered_prefix(turn_id, questions, prefix);
        let last = runs.len() - 1;
        assert(!answered(questions, runs[last].0, runs[last].1));
        assert forall|j: int| 0 <= j < runs.len() implies #[trigger] runs_outcome(turn_id, questions, runs).0[j] == (
            turn_id,
            completion_of(runs[j].0, false).0,
            completion_of(runs[j].0, false).1,
        ) by {
            if j < last {
                assert(prefix[j] == runs[j]);
            }
        }
    }
}

/// Law: handlers that fail or decline fall through: when no run answers,
/// there is no response and every run is reported as not answering.
pub proof fn lemma_unanswered_runs_fall_through(
    turn_id: Seq<char>,
    questions: Seq<RequestUserInputQuestion>,
    runs: Seq<(HandlerRunResult, Option<AnswerEntries>)>,
)
    requires
        forall|j: int| 0 <= j < runs.len() ==> !answered(questions, (#[trigger] runs[j]).0, runs[j].1),
    ensures
        runs_outcome(turn_id, questions, runs).1 is None,
        runs_outcome(turn_id, questions, runs).0.len() == runs.len(),
        forall|j: int|
            0 <= j < runs.len() ==> #[trigger] runs_outcome(turn_id, questions, runs).0[j] == (
                turn_id,
                completion_of(runs[j].0, false).0,
                completion_of(runs[j].0, false).1,
            ),
{
    lemma_unanswered_prefix(turn_id, questions, runs);
}

/// Law: the first complete response wins: the outcome's response is the
/// answers of the first run that answered, the runs before it are reported
/// as not answering, and no later run is reported.
pub proof fn lemma_first_complete_response_wins(
    turn_id: Seq<char>,
    questions: Seq<RequestUserInputQuestion>,
    runs: Seq<(HandlerRunResult, Option<AnswerEntries>)>,
    i: int,
)
    requires
        0 <= i < runs.len(),
        answered(questions, runs[i].0, runs[i].1),
        forall|j: int| 0 <= j < i ==> !answered(questions, (#[trigger] runs[j]).0, runs[j].1),
    ensures
        runs_outcome(turn_id, questions, runs).1 == runs[i].1,
        runs_outcome(turn_id, questions, runs).0.len() == i + 1,
        forall|j: int|
            0 <= j <= i ==> #[trigger] runs_outcome(turn_id, questions, runs).0[j] == (
                turn_id,
                completion_of(runs[j].0, j == i).0,
                completion_of(runs[j].0, j == i).1,
            ),
    decreases runs.len(),
{
    if runs.len() > i + 1 {
        let prefix = runs.drop_last();
        assert(prefix[i] == runs[i]);
        assert forall|j: int| 0 <= j < i implies !answered(questions, (#[trigger] prefix[j]).0, prefix[j].1) by {
            assert(prefix[j] == runs[j]);
        }
        lemma_first_complete_response_wins(turn_id, questions, prefix, i);
        assert forall|j: int| 0 <= j <= i implies #[trigger] runs_outcome(turn_id, questions, runs).0[j] == (
            turn_id,
            completion_of(runs[j].0, j == i).0,
            completion_of(runs[j].0, j == i).1,
        ) by {
            assert(prefix[j] == runs[j]);
        }
    } else {
        let prefix = runs.drop_last();
        assert forall|j: int| 0 <= j < prefix.len() implies !answered(questions, (#[trigger] prefix[j]).0, prefix[j].1) by {
            assert(prefix[j] == runs[j]);
        }
        lemma_unanswered_prefix(turn_id, questions, prefix);
        assert forall|j: int| 0 <= j <= i implies #[trigger] runs_outcome(turn_id, questions, runs).0[j] == (
            turn_id,
            completion_of(runs[j].0, j == i).0,
            completion_of(runs[j].0, j == i).1,
        ) by {
            if j < i {
                assert(prefix[j] == runs[j]);
            }
        }
    }
}

} // verus!
