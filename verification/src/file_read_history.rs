//! Reads earlier in the conversation shape new ones: consecutive small
//! reads of one file grow into larger pages, and a page whose text an
//! earlier page of the same file already showed is answered with a short
//! reference instead.
use vstd::prelude::*;
use vstd::string::StringSliceAdditionalSpecFns;

use crate::file_read::{
    limit_or_default, offset_or_default, sat_inc, ReadFileArgs, ReadFileResult, ReadOptimization,
};
use crate::text::{contains_seq, str_contains, str_eq};

verus! {

broadcast use vstd::string::group_string_axioms;

/// Reads of at most this many lines count as small.
pub const SMALL_READ_MAX_LINES: usize = 50;

/// The page size that consecutive small reads grow to.
pub const ADAPTIVE_READ_LINES: usize = 200;

/// A completed read: its arguments and its page.
#[derive(Clone, Debug)]
pub struct HistoricalRead {
    pub args: ReadFileArgs,
    pub result: ReadFileResult,
}

/// What the conversation history holds, as far as reads are concerned.
#[derive(Clone, Debug)]
pub enum HistoryItem {
    /// A message from the user, which starts a turn.
    UserMessage,
    /// A `read_file` call; `args` is `None` when its arguments did not parse.
    ReadCall { call_id: String, args: Option<ReadFileArgs> },
    /// The output of a call; `result` is `None` when it is not a read page.
    CallOutput { call_id: String, result: Option<ReadFileResult> },
    /// Anything else.
    Other,
}

/// The reads of the history, and where the current turn's reads start.
pub struct ReadHistory {
    pub reads: Vec<HistoricalRead>,
    pub current_turn_start: usize,
}

/// The state of collecting reads: completed reads, calls that wait for their
/// output (by call id), and the start of the current turn.
pub ghost struct CollectState {
    pub reads: Seq<HistoricalRead>,
    pub pending: Map<Seq<char>, ReadFileArgs>,
    pub turn_start: nat,
}

/// One history item applied to the collection.
pub open spec fn collect_step(s: CollectState, item: HistoryItem) -> CollectState {
    match item {
        HistoryItem::UserMessage => CollectState { turn_start: s.reads.len(), ..s },
        HistoryItem::ReadCall { call_id, args } => match args {
            Some(a) => CollectState { pending: s.pending.insert(call_id@, a), ..s },
            None => s,
        },
        HistoryItem::CallOutput { call_id, result } => if s.pending.contains_key(call_id@) {
            let args = s.pending[call_id@];
            let pending = s.pending.remove(call_id@);
            match result {
                Some(r) => CollectState {
                    reads: s.reads.push(HistoricalRead { args, result: r }),
                    pending,
                    ..s
                },
                None => CollectState { pending, ..s },
            }
        } else {
            s
        },
        HistoryItem::Other => s,
    }
}

/// The collection after the items.
pub open spec fn collected(items: Seq<HistoryItem>) -> CollectState
    decreases items.len(),
{
    if items.len() == 0 {
        CollectState { reads: Seq::empty(), pending: Map::empty(), turn_start: 0 }
    } else {
        collect_step(collected(items.drop_last()), items.last())
    }
}

/// The map that a list of distinct keyed entries stands for.
pub open spec fn entries_map(es: Seq<(String, ReadFileArgs)>) -> Map<Seq<char>, ReadFileArgs> {
    Map::new(
        |k: Seq<char>| exists|i: int| 0 <= i < es.len() && es[i].0@ == k,
        |k: Seq<char>| es[choose|i: int| 0 <= i < es.len() && es[i].0@ == k].1,
    )
}

/// No key occurs twice.
pub open spec fn distinct_keys(es: Seq<(String, ReadFileArgs)>) -> bool {
    forall|i: int, j: int| 0 <= i < j < es.len() ==> es[i].0@ != es[j].0@
}

fn find_entry(es: &Vec<(String, ReadFileArgs)>, key: &str) -> (r: Option<usize>)
    ensures
        match r {
            Some(i) => i < es@.len() && es@[i as int].0@ == key@,
            None => forall|j: int| 0 <= j < es@.len() ==> es@[j].0@ != key@,
        },
{
    let n = es.len();
    for i in 0..n
        invariant
            n == es@.len(),
            forall|j: int| 0 <= j < i ==> es@[j].0@ != key@,
    {
        if str_eq(es[i].0.as_str(), key) {
            return Some(i);
        }
    }
    None
}

proof fn lemma_entries_map_remove(es: Seq<(String, ReadFileArgs)>, i: int)
    requires
        distinct_keys(es),
        0 <= i < es.len(),
    ensures
        distinct_keys(es.remove(i)),
        entries_map(es.remove(i)) == entries_map(es).remove(es[i].0@),
        entries_map(es).contains_key(es[i].0@),
        entries_map(es)[es[i].0@] == es[i].1,
{
    let r = es.remove(i);
    assert forall|a: int, b: int| 0 <= a < b < r.len() implies r[a].0@ != r[b].0@ by {
        let a2 = if a < i { a } else { a + 1 };
        let b2 = if b < i { b } else { b + 1 };
        assert(r[a] == es[a2] && r[b] == es[b2]);
    }
    let m = entries_map(es);
    let k = es[i].0@;
    assert(m.contains_key(k));
    let c = choose|j: int| 0 <= j < es.len() && es[j].0@ == k;
    assert(c == i);
    assert forall|key: Seq<char>| #[trigger] entries_map(r).contains_key(key) <==> m.remove(k).contains_key(key) by {
        if entries_map(r).contains_key(key) {
            let j = choose|j: int| 0 <= j < r.len() && r[j].0@ == key;
            let j2 = if j < i { j } else { j + 1 };
            assert(r[j] == es[j2]);
        }
        if m.remove(k).contains_key(key) {
            let j = choose|j: int| 0 <= j < es.len() && es[j].0@ == key;
            assert(j != i);
            let j2 = if j < i { j } else { j - 1 };
            assert(r[j2] == es[j]);
        }
    }
    assert forall|key: Seq<char>| entries_map(r).contains_key(key) implies #[trigger] entries_map(r)[key] == m.remove(k)[key] by {
        let j = choose|j: int| 0 <= j < r.len() && r[j].0@ == key;
        let j2 = if j < i { j } else { j + 1 };
        assert(r[j] == es[j2]);
        let cj = choose|x: int| 0 <= x < es.len() && es[x].0@ == key;
        assert(cj == j2);
    }
    assert(entries_map(r) =~= m.remove(k));
}

proof fn lemma_entries_map_push(es: Seq<(String, ReadFileArgs)>, e: (String, ReadFileArgs))
    requires
        distinct_keys(es),
        forall|j: int| 0 <= j < es.len() ==> es[j].0@ != e.0@,
    ensures
        distinct_keys(es.push(e)),
        entries_map(es.push(e)) == entries_map(es).insert(e.0@, e.1),
{
    let p = es.push(e);
    let m = entries_map(es);
    assert forall|key: Seq<char>| #[trigger] entries_map(p).contains_key(key) <==> m.insert(e.0@, e.1).contains_key(key) by {
        if m.contains_key(key) {
            let j = choose|j: int| 0 <= j < es.len() && es[j].0@ == key;
            assert(p[j] == es[j]);
        }
        if key == e.0@ {
            assert(p[es.len() as int] == e);
        }
    }
    assert forall|key: Seq<char>| entries_map(p).contains_key(key) implies #[trigger] entries_map(p)[key] == m.insert(e.0@, e.1)[key] by {
        let cj = choose|x: int| 0 <= x < p.len() && p[x].0@ == key;
        if key == e.0@ {
            assert(cj == es.len());
        } else {
            assert(cj < es.len());
            assert(p[cj] == es[cj]);
            let ck = choose|x: int| 0 <= x < es.len() && es[x].0@ == key;
            assert(ck == cj);
        }
    }
    assert(entries_map(p) =~= m.insert(e.0@, e.1));
}

impl ReadHistory {
    /// Collects the completed reads of a history: a `read_file` call is
    /// remembered by its call id until its output arrives, and a user
    /// message starts a new turn.
    pub fn collect(items: &[HistoryItem]) -> (r: Self)
        ensures
            r.reads@ == collected(items@).reads,
            r.current_turn_start == collected(items@).turn_start,
            r.current_turn_start <= r.reads@.len(),
    {
        let mut reads: Vec<HistoricalRead> = Vec::new();
        let mut pending: Vec<(String, ReadFileArgs)> = Vec::new();
        let mut current_turn_start: usize = 0;
        let n = items.len();
        for i in 0..n
            invariant
                n == items@.len(),
                distinct_keys(pending@),
                reads@ == collected(items@.take(i as int)).reads,
                entries_map(pending@) == collected(items@.take(i as int)).pending,
                current_turn_start == collected(items@.take(i as int)).turn_start,
                current_turn_start <= reads@.len(),
        {
            assert(items@.take(i + 1).drop_last() =~= items@.take(i as int));
            let ghost before = CollectState { reads: reads@, pending: entries_map(pending@), turn_start: current_turn_start as nat };
            match &items[i] {
                HistoryItem::UserMessage => {
                    current_turn_start = reads.len();
                },
                HistoryItem::ReadCall { call_id, args } => {
                    match args {
                        Some(a) => {
                            match find_entry(&pending, call_id.as_str()) {
                                Some(j) => {
                                    proof {
                                        lemma_entries_map_remove(pending@, j as int);
                                    }
                                    pending.remove(j);
                                },
                                None => {},
                            }
                            let ghost without = pending@;
                            proof {
                                assert forall|j: int| 0 <= j < without.len() implies without[j].0@ != call_id@ by {
                                    if without[j].0@ == call_id@ {
                                        assert(entries_map(without).contains_key(call_id@));
                                    }
                                }
                                lemma_entries_map_push(without, (*call_id, *a));
                            }
                            pending.push((call_id.clone(), a.duplicate()));
                            proof {
                                assert(entries_map(without).insert(call_id@, *a) =~= before.pending.insert(call_id@, *a));
                            }
                        },
                        None => {},
                    }
                },
                HistoryItem::CallOutput { call_id, result } => {
                    match find_entry(&pending, call_id.as_str()) {
                        Some(j) => {
                            proof {
                                lemma_entries_map_remove(pending@, j as int);
                            }
                            let (_, args) = pending.remove(j);
                            match result {
                                Some(r) => {
                                    reads.push(HistoricalRead { args, result: r.duplicate() });
                                },
                                None => {},
                            }
                        },
                        None => {
                            proof {
                                if entries_map(pending@).contains_key(call_id@) {
                                    let w = choose|w: int| 0 <= w < pending@.len() && pending@[w].0@ == call_id@;
                                    assert(pending@[w].0@ == call_id@);
                                }
                            }
                        },
                    }
                },
                HistoryItem::Other => {},
            }
        }
        assert(items@.take(n as int) =~= items@);
        ReadHistory { reads, current_turn_start }
    }
}

/// The page size to use for a read, given the reads of the current turn: a
/// small read that continues a small read of the same file, which itself
/// continued a small read (or followed an expanded page), grows to 200
/// lines; any other read keeps its requested size.
pub open spec fn effective_limit_of(reads: Seq<HistoricalRead>, start: int, args: ReadFileArgs) -> usize {
    let requested = limit_or_default(args);
    let turn = reads.skip(start);
    if requested > SMALL_READ_MAX_LINES || turn.len() == 0 {
        requested
    } else {
        let last = turn.last();
        if last.args.file_path@ != args.file_path@ || sat_inc(last.result.end_line) != offset_or_default(
            args,
        ) {
            requested
        } else if last.result.read_optimization is Some {
            ADAPTIVE_READ_LINES
        } else {
            let previous = turn[if turn.len() >= 2 {
                turn.len() - 2
            } else {
                0
            }];
            if previous.args.file_path@ == args.file_path@ && limit_or_default(previous.args)
                <= SMALL_READ_MAX_LINES && limit_or_default(last.args) <= SMALL_READ_MAX_LINES
                && sat_inc(previous.result.end_line) == offset_or_default(last.args) {
                ADAPTIVE_READ_LINES
            } else {
                requested
            }
        }
    }
}

/// An earlier read shows all of a new page: same path, a line range that
/// contains the page's, and text that contains the page's (non-empty) text.
pub open spec fn covers(read: HistoricalRead, page: ReadFileResult) -> bool {
    &&& read.result.path@ == page.path@
    &&& read.result.start_line <= page.start_line
    &&& read.result.end_line >= page.end_line
    &&& page.content@.len() > 0
    &&& contains_seq(crate::text::utf8(read.result.content@), crate::text::utf8(page.content@))
}

/// `i` is the latest read that covers the page.
pub open spec fn latest_cover(reads: Seq<HistoricalRead>, page: ReadFileResult, i: int) -> bool {
    &&& 0 <= i < reads.len()
    &&& covers(reads[i], page)
    &&& forall|j: int| i < j < reads.len() ==> !covers(#[trigger] reads[j], page)
}

/// The short answer for a page that an earlier read already showed.
#[derive(Clone, Debug)]
pub struct UnchangedReadResult {
    pub status: &'static str,
    pub requested_start_line: usize,
    pub requested_end_line: usize,
    pub covered_start_line: usize,
    pub covered_end_line: usize,
    pub next_offset: Option<usize>,
    /// The page bytes that the short answer saves (not part of the answer).
    pub saved_bytes: usize,
}

/// What a read answers with.
#[derive(Clone, Debug)]
pub enum ReadHistoryOutput {
    Full(ReadFileResult),
    Unchanged(UnchangedReadResult),
}

impl ReadHistory {
    /// The page size to use for a read.
    pub fn effective_limit(&self, args: &ReadFileArgs) -> (r: usize)
        requires
            self.current_turn_start <= self.reads@.len(),
        ensures
            r == effective_limit_of(self.reads@, self.current_turn_start as int, *args),
    {
        let requested = args.limit();
        let len = self.reads.len();
        let start = self.current_turn_start;
        let ghost turn = self.reads@.skip(start as int);
        if requested > SMALL_READ_MAX_LINES || len == start {
            return requested;
        }
        let last = &self.reads[len - 1];
        assert(*last == turn.last());
        let next = if last.result.end_line < usize::MAX {
            last.result.end_line + 1
        } else {
            last.result.end_line
        };
        if !str_eq(last.args.file_path.as_str(), args.file_path.as_str()) || next != args.offset() {
            return requested;
        }
        if last.result.read_optimization.is_some() {
            return ADAPTIVE_READ_LINES;
        }
        let turn_len = len - start;
        let pi = if turn_len >= 2 {
            turn_len - 2
        } else {
            0
        };
        let previous = &self.reads[start + pi];
        assert(*previous == turn[pi as int]);
        let previous_next = if previous.result.end_line < usize::MAX {
            previous.result.end_line + 1
        } else {
            previous.result.end_line
        };
        if str_eq(previous.args.file_path.as_str(), args.file_path.as_str()) && previous.args.limit()
            <= SMALL_READ_MAX_LINES && last.args.limit() <= SMALL_READ_MAX_LINES && previous_next
            == last.args.offset() {
            ADAPTIVE_READ_LINES
        } else {
            requested
        }
    }

    /// The answer for a new page: a short reference to the latest earlier
    /// read that covers it; otherwise the page itself, marked as expanded when
    /// a small request got more lines.
    pub fn optimize_result(&self, requested_limit: usize, page: ReadFileResult) -> (r: ReadHistoryOutput)
        ensures
            (exists|i: int| latest_cover(self.reads@, page, i)) ==> (r matches ReadHistoryOutput::Unchanged(u) && {
                let i = choose|i: int| latest_cover(self.reads@, page, i);
                let c = self.reads@[i].result;
                &&& u.status@ == "file_unchanged"@
                &&& u.requested_start_line == page.start_line
                &&& u.requested_end_line == page.end_line
                &&& u.covered_start_line == c.start_line
                &&& u.covered_end_line == c.end_line
                &&& u.next_offset == c.next_offset
                &&& u.saved_bytes == crate::text::utf8(page.content@).len()
            }),
            !(exists|i: int| latest_cover(self.reads@, page, i)) ==> (r matches ReadHistoryOutput::Full(p) && {
                let span = sat_inc(
                    if page.end_line >= page.start_line {
                        (page.end_line - page.start_line) as usize
                    } else {
                        0usize
                    },
                );
                &&& p.path == page.path
                &&& p.start_line == page.start_line
                &&& p.end_line == page.end_line
                &&& p.content == page.content
                &&& p.truncated == page.truncated
                &&& p.next_offset == page.next_offset
                &&& if requested_limit <= SMALL_READ_MAX_LINES && span > requested_limit {
                    p.read_optimization matches Some(o) && o.requested_limit == requested_limit
                        && o.effective_limit == ADAPTIVE_READ_LINES && o.reason@
                        == "expanded_after_consecutive_small_reads"@
                } else {
                    p.read_optimization == page.read_optimization
                }
            }),
    {
        let n = self.reads.len();
        let mut k = n;
        while k > 0
            invariant
                k <= n,
                n == self.reads@.len(),
                forall|j: int| k <= j < n ==> !covers(#[trigger] self.reads@[j], page),
            decreases k,
        {
            let read = &self.reads[k - 1];
            let found = str_eq(read.result.path.as_str(), page.path.as_str()) && read.result.start_line
                <= page.start_line && read.result.end_line >= page.end_line && !page.content.as_str().is_empty()
                && str_contains(read.result.content.as_str(), page.content.as_str());
            if found {
                proof {
                    assert(latest_cover(self.reads@, page, k - 1));
                    assert forall|i: int| latest_cover(self.reads@, page, i) implies i == k - 1 by {
                        if i < k - 1 {
                            assert(!covers(self.reads@[k - 1], page));
                        }
                    }
                }
                return ReadHistoryOutput::Unchanged(
                    UnchangedReadResult {
                        status: "file_unchanged",
                        requested_start_line: page.start_line,
                        requested_end_line: page.end_line,
                        covered_start_line: read.result.start_line,
                        covered_end_line: read.result.end_line,
                        next_offset: read.result.next_offset,
                        saved_bytes: page.content.as_str().as_bytes().len(),
                    },
                );
            }
            k = k - 1;
        }
        let span = if page.end_line >= page.start_line {
            page.end_line - page.start_line
        } else {
            0
        };
        let effective = if span < usize::MAX {
            span + 1
        } else {
            span
        };
        let mut page = page;
        if requested_limit <= SMALL_READ_MAX_LINES && effective > requested_limit {
            page.read_optimization = Some(
                ReadOptimization {
                    requested_limit,
                    effective_limit: ADAPTIVE_READ_LINES,
                    reason: "expanded_after_consecutive_small_reads".to_owned(),
                },
            );
        }
        ReadHistoryOutput::Full(page)
    }
}

impl ReadHistoryOutput {
    /// The diagnostic event that the answer is worth recording, with its
    /// byte count: an expanded page, or a short reference with the bytes it
    /// saved.
    pub fn diagnostic(&self) -> (r: Option<(&'static str, usize)>)
        ensures
            match self {
                ReadHistoryOutput::Full(p) => match p.read_optimization {
                    Some(_) => r matches Some((name, bytes)) && name@ == "file.read.auto_expanded"@
                        && bytes == crate::text::utf8(p.content@).len(),
                    None => r is None,
                },
                ReadHistoryOutput::Unchanged(u) => r matches Some((name, bytes)) && name@
                    == "file.read.unchanged"@ && bytes == u.saved_bytes,
            },
    {
        match self {
            ReadHistoryOutput::Full(p) => match &p.read_optimization {
                Some(_) => Some(("file.read.auto_expanded", p.content.as_str().as_bytes().len())),
                None => None,
            },
            ReadHistoryOutput::Unchanged(u) => Some(("file.read.unchanged", u.saved_bytes)),
        }
    }
}

} // verus!
