//! Content and file-name search results: the ripgrep command lines, the
//! capture of its output, and the bounded, line-limited result text.
use vstd::prelude::*;
use vstd::string::StringSliceAdditionalSpecFns;
use vstd::utf8::*;

use crate::file_read::{append_truncated_text, lemma_truncated_entry_fits, truncated_entry};
use crate::lines::{lines_of, split_lines, trim, trim_str};
use crate::sorted_keys::{bytes_lt, lemma_lex_asymmetric, lemma_lex_total, lemma_lex_transitive, lex_lt};
use crate::text::{append_str, decimal, decimal_string, lemma_encode_concat, utf8};

verus! {

broadcast use vstd::string::group_string_axioms;

/// The largest result text, in bytes.
pub const MAX_SEARCH_RESULT_BYTES: usize = 32768;

/// The most output of ripgrep that is kept, per stream.
pub const MAX_RG_CAPTURE_BYTES: usize = 65536;

/// The widest matched line that ripgrep prints in content mode.
pub const MAX_CONTENT_COLUMNS: usize = 4096;

/// The most bytes one result line may take.
pub const MAX_SEARCH_LINE_BYTES: usize = 8192;

/// Result lines when no limit is given.
pub const DEFAULT_RESULT_LINES: usize = 100;

/// The largest line limit.
pub const MAX_RESULT_LINES: usize = 1000;

/// The most context lines around a content match.
pub const MAX_CONTEXT_LINES: usize = 20;

/// Seconds a search may run.
pub const SEARCH_TIMEOUT_SECS: u64 = 20;

/// The line limit to use: the requested one, or the default; it must lie
/// between one and 1000.
pub fn validate_head_limit(tool_name: &str, requested: Option<usize>) -> (r: Result<usize, String>)
    ensures
        ({
            let limit = match requested {
                Some(l) => l,
                None => DEFAULT_RESULT_LINES,
            };
            if limit == 0 || limit > MAX_RESULT_LINES {
                r matches Err(m) && m@ == tool_name@ + ".head_limit must be between 1 and 1000"@
            } else {
                r == Ok::<usize, String>(limit)
            }
        }),
{
    let limit = match requested {
        Some(l) => l,
        None => DEFAULT_RESULT_LINES,
    };
    if limit == 0 || limit > MAX_RESULT_LINES {
        let mut m = tool_name.to_owned();
        append_str(&mut m, ".head_limit must be between 1 and 1000");
        return Err(m);
    }
    Ok(limit)
}

/// The bytes up to and including their last line feed (none when there is
/// no line feed).
pub open spec fn complete_lines(b: Seq<u8>) -> Seq<u8>
    decreases b.len(),
{
    if b.len() == 0 {
        b
    } else if b.last() == 10 {
        b
    } else {
        complete_lines(b.drop_last())
    }
}

/// Drops a final line that has no line feed.
pub fn truncate_to_complete_line(bytes: &mut Vec<u8>)
    ensures
        final(bytes)@ == complete_lines(old(bytes)@),
{
    let mut n = bytes.len();
    assert(old(bytes)@.take(n as int) =~= old(bytes)@);
    while n > 0 && bytes[n - 1] != 10
        invariant
            n <= bytes@.len(),
            bytes@ == old(bytes)@,
            complete_lines(old(bytes)@) == complete_lines(bytes@.take(n as int)),
        decreases n,
    {
        assert(bytes@.take(n as int).drop_last() =~= bytes@.take(n - 1));
        n = n - 1;
    }
    bytes.truncate(n);
    assert(bytes@ =~= old(bytes)@.take(n as int));
}

/// Appends as much of `chunk` as fits under `max` bytes in all; returns
/// whether some of it did not fit.
pub fn append_capped(buffer: &mut Vec<u8>, chunk: &[u8], max: usize) -> (over: bool)
    ensures
        ({
            let remaining = if max >= old(buffer)@.len() {
                max - old(buffer)@.len()
            } else {
                0
            };
            &&& over == (chunk@.len() > remaining)
            &&& final(buffer)@ == old(buffer)@ + chunk@.take(
                if over {
                    remaining
                } else {
                    chunk@.len() as int
                },
            )
        }),
{
    let len = buffer.len();
    let remaining = if max >= len {
        max - len
    } else {
        0
    };
    let over = chunk.len() > remaining;
    let kept = if over {
        remaining
    } else {
        chunk.len()
    };
    crate::text::push_range(buffer, chunk, 0, kept);
    assert(chunk@.subrange(0, kept as int) =~= chunk@.take(kept as int));
    over
}

/// The decimal text of a signed number.
pub open spec fn signed_decimal(n: int) -> Seq<char> {
    if n < 0 {
        "-"@ + decimal((-n) as nat)
    } else {
        decimal(n as nat)
    }
}

fn signed_decimal_string(n: i32) -> (r: String)
    ensures
        r@ == signed_decimal(n as int),
{
    let wide = n as i64;
    if wide < 0 {
        let mut r = "-".to_owned();
        let magnitude = (-wide) as u64;
        append_str(&mut r, decimal_string(magnitude).as_str());
        r
    } else {
        decimal_string(wide as u64)
    }
}

/// The error that an unsuccessful ripgrep run reports, unless its output was
/// cut (which ends the process on purpose) or it exited with 0 or 1 (matches,
/// or none).
pub fn rg_exit_error(truncated: bool, exit_code: Option<i32>, stderr: &str) -> (r: Option<String>)
    ensures
        (truncated || exit_code == Some(0i32) || exit_code == Some(1i32)) ==> r is None,
        !(truncated || exit_code == Some(0i32) || exit_code == Some(1i32)) ==> (r matches Some(m) && m@
            == "rg exited with "@ + match exit_code {
            Some(c) => signed_decimal(c as int),
            None => "unknown status"@,
        } + if trim(stderr@).len() == 0 {
            Seq::<char>::empty()
        } else {
            ": "@ + trim(stderr@)
        }),
{
    let ok = match exit_code {
        Some(c) => c == 0 || c == 1,
        None => false,
    };
    if truncated || ok {
        return None;
    }
    let mut m = "rg exited with ".to_owned();
    match exit_code {
        Some(c) => append_str(&mut m, signed_decimal_string(c).as_str()),
        None => append_str(&mut m, "unknown status"),
    }
    let detail = trim_str(stderr);
    if !detail.as_str().is_empty() {
        append_str(&mut m, ": ");
        append_str(&mut m, detail.as_str());
    }
    Some(m)
}

/// What a search answers: the result text, how many lines it holds, and
/// whether anything was left out.
#[derive(Clone, Debug)]
pub struct SearchResult {
    pub output: String,
    pub result_count: usize,
    pub truncated: bool,
}

/// The result text built from `lines`, after `out` with `kept` lines: each
/// line with a line feed while it fits its budget (at most 8 KiB, and what
/// is left of 32 KiB); a line that does not fit is cut with the truncation
/// marker; once no budget is left the rest is dropped.
pub open spec fn search_fold(lines: Seq<Seq<char>>, out: Seq<u8>, kept: nat, truncated: bool) -> (Seq<u8>, nat, bool)
    decreases lines.len(),
{
    if lines.len() == 0 {
        (out, kept, truncated)
    } else {
        let available = if MAX_SEARCH_RESULT_BYTES >= out.len() {
            MAX_SEARCH_RESULT_BYTES - out.len()
        } else {
            0
        };
        if available == 0 {
            (out, kept, true)
        } else {
            let budget = if available <= MAX_SEARCH_LINE_BYTES {
                available
            } else {
                MAX_SEARCH_LINE_BYTES as int
            };
            let l = utf8(lines[0]);
            if l.len() + 1 > budget {
                search_fold(lines.drop_first(), out + truncated_entry(l, budget), kept + 1, true)
            } else {
                search_fold(lines.drop_first(), out + l + seq![10u8], kept + 1, truncated)
            }
        }
    }
}

/// The views of a list of strings.
pub open spec fn views(v: Seq<String>) -> Seq<Seq<char>> {
    v.map_values(|s: String| s@)
}

/// Lines are in byte order (equal lines may repeat).
pub open spec fn byte_sorted(v: Seq<Seq<char>>) -> bool {
    forall|i: int, j: int| 0 <= i < j < v.len() ==> !lex_lt(#[trigger] utf8(v[j]), #[trigger] utf8(v[i]))
}

/// The result of the lines, limited to `head_limit` lines first.
pub open spec fn search_result_of(lines: Seq<Seq<char>>, head_limit: usize, truncated: bool) -> (Seq<u8>, nat, bool) {
    if lines.len() > head_limit {
        search_fold(lines.take(head_limit as int), Seq::empty(), 0, true)
    } else {
        search_fold(lines, Seq::empty(), 0, truncated)
    }
}

/// Law: a search result never exceeds 32 KiB, and never holds more lines
/// than it was given.
pub proof fn lemma_search_fold_bounded(lines: Seq<Seq<char>>, out: Seq<u8>, kept: nat, truncated: bool)
    requires
        out.len() <= MAX_SEARCH_RESULT_BYTES,
    ensures
        search_fold(lines, out, kept, truncated).0.len() <= MAX_SEARCH_RESULT_BYTES,
        search_fold(lines, out, kept, truncated).1 <= kept + lines.len(),
    decreases lines.len(),
{
    if lines.len() > 0 {
        let available = MAX_SEARCH_RESULT_BYTES - out.len();
        if available > 0 {
            let budget = if available <= MAX_SEARCH_LINE_BYTES {
                available
            } else {
                MAX_SEARCH_LINE_BYTES as int
            };
            let l = utf8(lines[0]);
            encode_utf8_valid_utf8(lines[0]);
            lemma_truncated_entry_fits(l, budget);
            if l.len() + 1 > budget {
                lemma_search_fold_bounded(lines.drop_first(), out + truncated_entry(l, budget), kept + 1, true);
            } else {
                lemma_search_fold_bounded(lines.drop_first(), out + l + seq![10u8], kept + 1, truncated);
            }
        }
    }
}

/// Sorts lines into byte order.
pub fn sort_lines(lines: Vec<String>) -> (r: Vec<String>)
    ensures
        byte_sorted(views(r@)),
        views(r@).to_multiset() == views(lines@).to_multiset(),
{
    let mut out: Vec<String> = Vec::new();
    let n = lines.len();
    assert(views(lines@.take(0)) =~= views(out@));
    for i in 0..n
        invariant
            n == lines@.len(),
            byte_sorted(views(out@)),
            views(out@).to_multiset() == views(lines@.take(i as int)).to_multiset(),
    {
        let x = lines[i].clone();
        let xb = x.as_str().as_bytes();
        let m = out.len();
        let mut p: usize = 0;
        while p < m && !bytes_lt(xb, out[p].as_str().as_bytes())
            invariant
                p <= m,
                m == out@.len(),
                xb@ == utf8(x@),
                forall|a: int| 0 <= a < p ==> !lex_lt(utf8(x@), #[trigger] utf8(views(out@)[a])),
            decreases m - p,
        {
            p = p + 1;
        }
        let ghost before = views(out@);
        out.insert(p, x);
        proof {
            assert(views(out@) =~= before.insert(p as int, x@));
            vstd::seq_lib::to_multiset_insert(before, p as int, x@);
            assert(views(lines@.take(i + 1)) =~= views(lines@.take(i as int)).push(lines@[i as int]@));
            vstd::seq_lib::to_multiset_build(views(lines@.take(i as int)), lines@[i as int]@);
            let v = views(out@);
            assert forall|a: int, b: int| 0 <= a < b < v.len() implies !lex_lt(
                #[trigger] utf8(v[b]),
                #[trigger] utf8(v[a]),
            ) by {
                let xk = utf8(x@);
                if a < p && b == p {
                    assert(v[a] == before[a]);
                    lemma_lex_total(xk, utf8(before[a]));
                    if lex_lt(xk, utf8(before[a])) {
                    }
                } else if a == p {
                    assert(v[b] == before[b - 1]);
                    assert(lex_lt(xk, utf8(before[p as int])));
                    if b - 1 > p {
                        assert(!lex_lt(utf8(before[b - 1]), utf8(before[p as int])));
                        lemma_lex_total(utf8(before[b - 1]), utf8(before[p as int]));
                        if lex_lt(utf8(before[p as int]), utf8(before[b - 1])) {
                            lemma_lex_transitive(xk, utf8(before[p as int]), utf8(before[b - 1]));
                        }
                    }
                    lemma_lex_asymmetric(xk, utf8(v[b]));
                } else if a < p && b > p {
                    assert(v[a] == before[a] && v[b] == before[b - 1]);
                } else if a > p {
                    assert(v[a] == before[a - 1] && v[b] == before[b - 1]);
                } else {
                    assert(v[a] == before[a] && v[b] == before[b]);
                }
            }
        }
    }
    assert(lines@.take(n as int) =~= lines@);
    out
}

/// Builds the result text from the lines in order, limited to `head_limit`
/// lines; `truncated` says whether the capture was already cut.
pub fn format_search_lines(lines: Vec<String>, capture_truncated: bool, head_limit: usize) -> (r: SearchResult)
    ensures
        (utf8(r.output@), r.result_count as nat, r.truncated) == search_result_of(
            views(lines@),
            head_limit,
            capture_truncated,
        ),
        r.output@.len() <= MAX_SEARCH_RESULT_BYTES,
{
    let mut truncated = capture_truncated;
    let mut n = lines.len();
    if n > head_limit {
        n = head_limit;
        truncated = true;
    }
    let ghost ls = views(lines@).take(n as int);
    let mut output = String::new();
    let mut kept: usize = 0;
    let mut i: usize = 0;
    assert(ls.skip(0) =~= ls);
    proof {
        assert(utf8(output@) =~= Seq::<u8>::empty());
        if lines@.len() <= head_limit {
            assert(views(lines@).take(n as int) =~= views(lines@));
        }
    }
    let mut stop = false;
    while i < n && !stop
        invariant
            i <= n <= lines@.len(),
            kept <= i,
            ls == views(lines@).take(n as int),
            utf8(output@).len() <= MAX_SEARCH_RESULT_BYTES,
            !stop ==> search_result_of(views(lines@), head_limit, capture_truncated) == search_fold(
                ls.skip(i as int),
                utf8(output@),
                kept as nat,
                truncated,
            ),
            stop ==> search_result_of(views(lines@), head_limit, capture_truncated) == (
                utf8(output@),
                kept as nat,
                truncated,
            ),
        decreases n - i,
    {
        let ghost rest = ls.skip(i as int);
        let olen = output.as_str().as_bytes().len();
        let available = if MAX_SEARCH_RESULT_BYTES >= olen {
            MAX_SEARCH_RESULT_BYTES - olen
        } else {
            0
        };
        if available == 0 {
            truncated = true;
            stop = true;
            proof {
                assert(rest.len() > 0);
            }
            i = n;
            continue;
        }
        let budget = if available <= MAX_SEARCH_LINE_BYTES {
            available
        } else {
            MAX_SEARCH_LINE_BYTES
        };
        let line = lines[i].as_str();
        assert(rest[0] == line@);
        let llen = line.as_bytes().len();
        let ghost before = output@;
        proof {
            encode_utf8_valid_utf8(line@);
            lemma_truncated_entry_fits(utf8(line@), budget as int);
        }
        if llen >= budget {
            append_truncated_text(&mut output, line, budget);
            truncated = true;
        } else {
            append_str(&mut output, line);
            append_str(&mut output, "\n");
            proof {
                lemma_encode_concat(before, line@);
                lemma_encode_concat(before + line@, "\n"@);
                crate::text::lemma_newline_utf8();
            }
        }
        kept = kept + 1;
        assert(rest.drop_first() =~= ls.skip(i + 1));
        i = i + 1;
    }
    proof {
        if !stop {
            assert(ls.skip(i as int) =~= Seq::<Seq<char>>::empty());
        }
        crate::text::lemma_encode_len_at_least(output@);
    }
    SearchResult { output, result_count: kept, truncated }
}

/// `ordered` is the list of `text`'s lines in the order a search reports
/// them: byte order when `sort`, else as they came.
pub open spec fn reported_lines(text: Seq<char>, sort: bool, ordered: Seq<Seq<char>>) -> bool {
    if sort {
        byte_sorted(ordered) && ordered.to_multiset() == lines_of(text).to_multiset()
    } else {
        ordered == lines_of(text)
    }
}

/// The lines of a search's captured text, in byte order when `sort`, as a
/// result limited to `head_limit` lines.
pub fn format_search_result(text: &str, capture_truncated: bool, head_limit: usize, sort: bool) -> (r: SearchResult)
    ensures
        exists|ordered: Seq<Seq<char>>|
            #[trigger] reported_lines(text@, sort, ordered) && (
                utf8(r.output@),
                r.result_count as nat,
                r.truncated,
            ) == search_result_of(ordered, head_limit, capture_truncated),
        r.output@.len() <= MAX_SEARCH_RESULT_BYTES,
{
    let lines = split_lines(text);
    assert(views(lines@) =~= lines_of(text@));
    let ordered = if sort {
        sort_lines(lines)
    } else {
        lines
    };
    let r = format_search_lines(ordered, capture_truncated, head_limit);
    assert(reported_lines(text@, sort, views(ordered@)));
    r
}

/// What a content search prints.
#[derive(Clone, Copy, Debug, PartialEq, Eq)]
pub enum GrepOutputMode {
    FilesWithMatches,
    Content,
    Count,
}

/// The arguments of a `grep_files` call.
#[derive(Clone, Debug)]
pub struct GrepFilesArgs {
    pub pattern: String,
    pub path: Option<String>,
    pub glob: Option<String>,
    pub output_mode: Option<GrepOutputMode>,
    pub context: Option<usize>,
    pub head_limit: Option<usize>,
}

/// The arguments of a `glob_files` call.
#[derive(Clone, Debug)]
pub struct GlobFilesArgs {
    pub pattern: String,
    pub path: Option<String>,
    pub head_limit: Option<usize>,
}

/// The checked settings of a content search.
#[derive(Clone, Copy, Debug, PartialEq, Eq)]
pub struct GrepPlan {
    pub head_limit: usize,
    pub mode: GrepOutputMode,
    pub context: usize,
}

/// The limit that a request names or defaults to.
pub open spec fn head_limit_or_default(requested: Option<usize>) -> usize {
    match requested {
        Some(l) => l,
        None => DEFAULT_RESULT_LINES,
    }
}

/// The limit lies between one and 1000.
pub open spec fn head_limit_valid(requested: Option<usize>) -> bool {
    let l = head_limit_or_default(requested);
    l != 0 && l <= MAX_RESULT_LINES
}

/// Checks a content search: a non-empty pattern, a valid line limit and at
/// most 20 context lines (in that order); the mode defaults to listing
/// matching files and the context to none.
pub fn check_grep_args(args: &GrepFilesArgs) -> (r: Result<GrepPlan, String>)
    ensures
        args.pattern@.len() == 0 ==> (r matches Err(m) && m@ == "grep_files.pattern must not be empty"@),
        args.pattern@.len() > 0 && !head_limit_valid(args.head_limit) ==> (r matches Err(m) && m@
            == "grep_files.head_limit must be between 1 and 1000"@),
        args.pattern@.len() > 0 && head_limit_valid(args.head_limit) && (match args.context {
            Some(c) => c > MAX_CONTEXT_LINES,
            None => false,
        }) ==> (r matches Err(m) && m@ == "grep_files.context cannot exceed 20"@),
        r matches Ok(plan) ==> {
            &&& args.pattern@.len() > 0
            &&& head_limit_valid(args.head_limit)
            &&& plan.head_limit == head_limit_or_default(args.head_limit)
            &&& plan.mode == match args.output_mode {
                Some(m) => m,
                None => GrepOutputMode::FilesWithMatches,
            }
            &&& plan.context == match args.context {
                Some(c) => c,
                None => 0,
            }
            &&& plan.context <= MAX_CONTEXT_LINES
        },
{
    if args.pattern.as_str().is_empty() {
        return Err("grep_files.pattern must not be empty".to_owned());
    }
    let head_limit = match validate_head_limit("grep_files", args.head_limit) {
        Ok(l) => l,
        Err(_) => {
            return Err("grep_files.head_limit must be between 1 and 1000".to_owned());
        },
    };
    let mode = match args.output_mode {
        Some(m) => m,
        None => GrepOutputMode::FilesWithMatches,
    };
    let context = match args.context {
        Some(c) => c,
        None => 0,
    };
    if context > MAX_CONTEXT_LINES {
        return Err("grep_files.context cannot exceed 20".to_owned());
    }
    Ok(GrepPlan { head_limit, mode, context })
}

/// Checks a file-name search: a non-empty pattern and a valid line limit.
pub fn check_glob_args(args: &GlobFilesArgs) -> (r: Result<usize, String>)
    ensures
        args.pattern@.len() == 0 ==> (r matches Err(m) && m@ == "glob_files.pattern must not be empty"@),
        args.pattern@.len() > 0 && !head_limit_valid(args.head_limit) ==> (r matches Err(m) && m@
            == "glob_files.head_limit must be between 1 and 1000"@),
        args.pattern@.len() > 0 && head_limit_valid(args.head_limit) ==> r == Ok::<usize, String>(
            head_limit_or_default(args.head_limit),
        ),
{
    if args.pattern.as_str().is_empty() {
        return Err("glob_files.pattern must not be empty".to_owned());
    }
    match validate_head_limit("glob_files", args.head_limit) {
        Ok(l) => Ok(l),
        Err(_) => Err("glob_files.head_limit must be between 1 and 1000".to_owned()),
    }
}

/// Ripgrep runs only in the local environment: once a search's arguments
/// are checked and its path is resolved, a remote environment refuses it
/// before the process starts.
pub fn check_search_environment(environment_is_remote: bool) -> (r: Result<(), String>)
    ensures
        r is Ok <==> !environment_is_remote,
        r matches Err(m) ==> m@ == "Windows native file search currently supports only the local environment"@,
{
    if environment_is_remote {
        Err("Windows native file search currently supports only the local environment".to_owned())
    } else {
        Ok(())
    }
}

/// The path to search relative to the working directory, when one was given
/// (an empty path means the working directory itself).
pub fn requested_search_path(path: &Option<String>) -> (r: Option<String>)
    ensures
        match path {
            Some(p) => if p@.len() > 0 {
                r matches Some(q) && q@ == p@
            } else {
                r is None
            },
            None => r is None,
        },
{
    match path {
        Some(p) => if p.as_str().is_empty() {
            None
        } else {
            Some(p.clone())
        },
        None => None,
    }
}

/// The ripgrep arguments of an output mode.
pub open spec fn mode_args(mode: GrepOutputMode, context: usize) -> Seq<Seq<char>> {
    match mode {
        GrepOutputMode::FilesWithMatches => seq!["--files-with-matches"@],
        GrepOutputMode::Content => seq![
            "--line-number"@,
            "--column"@,
            "--no-heading"@,
            "--max-columns"@,
            decimal(MAX_CONTENT_COLUMNS as nat),
            "--max-columns-preview"@,
        ] + if context > 0 {
            seq!["--context"@, decimal(context as nat)]
        } else {
            Seq::empty()
        },
        GrepOutputMode::Count => seq!["--count"@],
    }
}

/// The ripgrep command line of a content search.
pub open spec fn grep_argv_of(rg: Seq<char>, args: GrepFilesArgs, plan: GrepPlan, path: Seq<char>) -> Seq<Seq<char>> {
    seq![rg, "--color"@, "never"@, "--encoding"@, "auto"@] + mode_args(plan.mode, plan.context) + match args.glob {
        Some(g) => seq!["--glob"@, g@],
        None => Seq::empty(),
    } + seq!["--"@, args.pattern@, path]
}

fn push_owned(v: &mut Vec<String>, s: &str)
    ensures
        views(final(v)@) == views(old(v)@).push(s@),
{
    let ghost before = v@;
    v.push(s.to_owned());
    assert(views(v@) =~= views(before).push(s@));
}

/// The ripgrep command line of a content search of `search_path`.
pub fn grep_argv(rg: &str, args: &GrepFilesArgs, plan: &GrepPlan, search_path: &str) -> (r: Vec<String>)
    ensures
        views(r@) == grep_argv_of(rg@, *args, *plan, search_path@),
{
    let mut v: Vec<String> = Vec::new();
    push_owned(&mut v, rg);
    push_owned(&mut v, "--color");
    push_owned(&mut v, "never");
    push_owned(&mut v, "--encoding");
    push_owned(&mut v, "auto");
    let ghost head = views(v@);
    match plan.mode {
        GrepOutputMode::FilesWithMatches => push_owned(&mut v, "--files-with-matches"),
        GrepOutputMode::Content => {
            push_owned(&mut v, "--line-number");
            push_owned(&mut v, "--column");
            push_owned(&mut v, "--no-heading");
            push_owned(&mut v, "--max-columns");
            push_owned(&mut v, decimal_string(MAX_CONTENT_COLUMNS as u64).as_str());
            push_owned(&mut v, "--max-columns-preview");
            if plan.context > 0 {
                push_owned(&mut v, "--context");
                push_owned(&mut v, decimal_string(plan.context as u64).as_str());
            }
        },
        GrepOutputMode::Count => push_owned(&mut v, "--count"),
    }
    assert(views(v@) =~= head + mode_args(plan.mode, plan.context));
    let ghost with_mode = views(v@);
    match &args.glob {
        Some(g) => {
            push_owned(&mut v, "--glob");
            push_owned(&mut v, g.as_str());
        },
        None => {},
    }
    push_owned(&mut v, "--");
    push_owned(&mut v, args.pattern.as_str());
    push_owned(&mut v, search_path);
    assert(views(v@) =~= grep_argv_of(rg@, *args, *plan, search_path@));
    v
}

/// The ripgrep command line of a file-name search.
pub open spec fn glob_argv_of(rg: Seq<char>, args: GlobFilesArgs, path: Seq<char>) -> Seq<Seq<char>> {
    seq![rg, "--files"@, "--sort"@, "path"@, "--glob"@, args.pattern@, "--"@, path]
}

/// The ripgrep command line of a file-name search of `search_path`.
pub fn glob_argv(rg: &str, args: &GlobFilesArgs, search_path: &str) -> (r: Vec<String>)
    ensures
        views(r@) == glob_argv_of(rg@, *args, search_path@),
{
    let mut v: Vec<String> = Vec::new();
    push_owned(&mut v, rg);
    push_owned(&mut v, "--files");
    push_owned(&mut v, "--sort");
    push_owned(&mut v, "path");
    push_owned(&mut v, "--glob");
    push_owned(&mut v, args.pattern.as_str());
    push_owned(&mut v, "--");
    push_owned(&mut v, search_path);
    assert(views(v@) =~= glob_argv_of(rg@, *args, search_path@));
    v
}

proof fn lemma_utf8_injective(a: Seq<char>, b: Seq<char>)
    requires
        utf8(a) == utf8(b),
    ensures
        a == b,
{
    encode_utf8_decode_utf8(a);
    encode_utf8_decode_utf8(b);
}

/// Two byte-ordered arrangements of the same lines are the same list.
pub proof fn lemma_sorted_permutation_unique(a: Seq<Seq<char>>, b: Seq<Seq<char>>)
    requires
        byte_sorted(a),
        byte_sorted(b),
        a.to_multiset() == b.to_multiset(),
    ensures
        a == b,
    decreases a.len(),
{
    vstd::seq_lib::to_multiset_len(a);
    vstd::seq_lib::to_multiset_len(b);
    if a.len() == 0 {
        assert(a =~= b);
    } else {
        let x = a[0];
        let y = b[0];
        vstd::seq_lib::to_multiset_contains(a, x);
        vstd::seq_lib::to_multiset_contains(b, x);
        vstd::seq_lib::to_multiset_contains(a, y);
        vstd::seq_lib::to_multiset_contains(b, y);
        assert(a.contains(x));
        assert(b.contains(y));
        let j = choose|j: int| 0 <= j < b.len() && b[j] == x;
        let k = choose|k: int| 0 <= k < a.len() && a[k] == y;
        if j > 0 {
            assert(!lex_lt(utf8(b[j]), utf8(b[0])));
        }
        if k > 0 {
            assert(!lex_lt(utf8(a[k]), utf8(a[0])));
        }
        lemma_lex_total(utf8(x), utf8(y));
        lemma_utf8_injective(x, y);
        vstd::seq_lib::to_multiset_remove(a, 0);
        vstd::seq_lib::to_multiset_remove(b, 0);
        assert(a.remove(0) =~= a.drop_first());
        assert(b.remove(0) =~= b.drop_first());
        let a1 = a.drop_first();
        let b1 = b.drop_first();
        assert forall|p: int, q: int| 0 <= p < q < a1.len() implies !lex_lt(
            #[trigger] utf8(a1[q]),
            #[trigger] utf8(a1[p]),
        ) by {
            assert(a1[q] == a[q + 1] && a1[p] == a[p + 1]);
        }
        assert forall|p: int, q: int| 0 <= p < q < b1.len() implies !lex_lt(
            #[trigger] utf8(b1[q]),
            #[trigger] utf8(b1[p]),
        ) by {
            assert(b1[q] == b[q + 1] && b1[p] == b[p + 1]);
        }
        lemma_sorted_permutation_unique(a1, b1);
        assert(a =~= seq![x] + a1);
        assert(b =~= seq![y] + b1);
    }
}

/// Law: the order in which a search reports lines is determined by the text:
/// there is exactly one such list.
pub proof fn lemma_reported_lines_unique(text: Seq<char>, sort: bool, a: Seq<Seq<char>>, b: Seq<Seq<char>>)
    requires
        reported_lines(text, sort, a),
        reported_lines(text, sort, b),
    ensures
        a == b,
{
    if sort {
        lemma_sorted_permutation_unique(a, b);
    }
}

} // verus!
