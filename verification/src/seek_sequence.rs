//! Locating the context lines of a patch hunk inside a file, with decreasing
//! strictness: exact, ignoring trailing whitespace, then normalising common
//! Unicode punctuation (leading whitespace is always significant).
use vstd::prelude::*;

use crate::text::chars_of;

verus! {

broadcast use vstd::string::group_string_axioms;

/// How an update treats the file's line endings.
#[derive(Clone, Copy, Debug, PartialEq, Eq, Structural)]
pub enum ApplyPatchFileUpdateMode {
    NormalizeToLf,
    PreserveLineEndings,
}

/// The Unicode `White_Space` property (the set that `char::is_whitespace`
/// documents): U+0009..U+000D, U+0020, U+0085, U+00A0, U+1680,
/// U+2000..U+200A, U+2028, U+2029, U+202F, U+205F and U+3000.
pub open spec fn is_white_space(c: char) -> bool {
    let u = c as u32;
    (0x9 <= u && u <= 0xd) || u == 0x20 || u == 0x85 || u == 0xa0 || u == 0x1680 || (0x2000 <= u
        && u <= 0x200a) || u == 0x2028 || u == 0x2029 || u == 0x202f || u == 0x205f || u == 0x3000
}

/// `s` without its trailing whitespace (`str::trim_end`).
pub open spec fn trim_end(s: Seq<char>) -> Seq<char>
    decreases s.len(),
{
    if s.len() > 0 && is_white_space(s.last()) {
        trim_end(s.drop_last())
    } else {
        s
    }
}

/// The ASCII stand-in of typographic dashes, quotes and spaces.
pub open spec fn punctuation_ascii(c: char) -> char {
    let u = c as u32;
    if (0x2010 <= u && u <= 0x2015) || u == 0x2212 {
        '-'
    } else if 0x2018 <= u && u <= 0x201b {
        '\''
    } else if 0x201c <= u && u <= 0x201f {
        '"'
    } else if u == 0xa0 || (0x2002 <= u && u <= 0x200a) || u == 0x202f || u == 0x205f || u
        == 0x3000 {
        ' '
    } else {
        c
    }
}

/// A line with its trailing whitespace removed and its punctuation normalised.
pub open spec fn normalise(s: Seq<char>) -> Seq<char> {
    trim_end(s).map_values(|c: char| punctuation_ascii(c))
}

pub open spec fn views(v: Seq<String>) -> Seq<Seq<char>> {
    v.map_values(|s: String| s@)
}

/// How strictly a window of lines is compared with the pattern.
pub enum Strictness {
    Exact,
    TrimEnd,
    Normalised,
}

pub open spec fn line_eq(kind: Strictness, a: Seq<char>, b: Seq<char>) -> bool {
    match kind {
        Strictness::Exact => a == b,
        Strictness::TrimEnd => trim_end(a) == trim_end(b),
        Strictness::Normalised => normalise(a) == normalise(b),
    }
}

/// The pattern matches the lines starting at line `i`.
pub open spec fn matches_at(kind: Strictness, lines: Seq<Seq<char>>, pattern: Seq<Seq<char>>, i: int) -> bool {
    forall|p: int| 0 <= p < pattern.len() ==> #[trigger] line_eq(kind, lines[i + p], pattern[p])
}

pub open spec fn any_match(kind: Strictness, lines: Seq<Seq<char>>, pattern: Seq<Seq<char>>, from: int, to: int) -> bool {
    exists|i: int| from <= i <= to && #[trigger] matches_at(kind, lines, pattern, i)
}

/// `i` is the first line in `[from, to]` at which the pattern matches.
pub open spec fn first_match(kind: Strictness, lines: Seq<Seq<char>>, pattern: Seq<Seq<char>>, from: int, to: int, i: int) -> bool {
    &&& from <= i <= to
    &&& matches_at(kind, lines, pattern, i)
    &&& forall|j: int| from <= j < i ==> !#[trigger] matches_at(kind, lines, pattern, j)
}

/// The answer of a search in `[from, to]`: the first exact match; failing
/// that, the first match ignoring trailing whitespace; failing that, the first
/// match after normalisation; or none.
pub open spec fn is_range_result(lines: Seq<Seq<char>>, pattern: Seq<Seq<char>>, from: int, to: int, r: Option<usize>) -> bool {
    match r {
        Some(i) => {
            ||| first_match(Strictness::Exact, lines, pattern, from, to, i as int)
            ||| !any_match(Strictness::Exact, lines, pattern, from, to) && first_match(
                Strictness::TrimEnd,
                lines,
                pattern,
                from,
                to,
                i as int,
            )
            ||| !any_match(Strictness::Exact, lines, pattern, from, to) && !any_match(
                Strictness::TrimEnd,
                lines,
                pattern,
                from,
                to,
            ) && first_match(Strictness::Normalised, lines, pattern, from, to, i as int)
        },
        None => {
            &&& !any_match(Strictness::Exact, lines, pattern, from, to)
            &&& !any_match(Strictness::TrimEnd, lines, pattern, from, to)
            &&& !any_match(Strictness::Normalised, lines, pattern, from, to)
        },
    }
}

/// Law: a search of a range has exactly one result: the position it
/// reports is determined by the lines, the pattern and the range.
pub proof fn lemma_range_result_unique(lines: Seq<Seq<char>>, pattern: Seq<Seq<char>>, from: int, to: int, a: Option<usize>, b: Option<usize>)
    requires
        is_range_result(lines, pattern, from, to, a),
        is_range_result(lines, pattern, from, to, b),
    ensures
        a == b,
{
    if a is Some && b is Some {
        let x = a->0 as int;
        let y = b->0 as int;
        if x < y {
            assert(from <= x < y);
        } else if y < x {
            assert(from <= y < x);
        }
    }
}

pub fn is_whitespace(c: char) -> (r: bool)
    ensures
        r == is_white_space(c),
{
    let u = c as u32;
    (0x9 <= u && u <= 0xd) || u == 0x20 || u == 0x85 || u == 0xa0 || u == 0x1680 || (0x2000 <= u
        && u <= 0x200a) || u == 0x2028 || u == 0x2029 || u == 0x202f || u == 0x205f || u == 0x3000
}

fn ascii_punctuation(c: char) -> (r: char)
    ensures
        r == punctuation_ascii(c),
{
    let u = c as u32;
    if (0x2010 <= u && u <= 0x2015) || u == 0x2212 {
        '-'
    } else if 0x2018 <= u && u <= 0x201b {
        '\''
    } else if 0x201c <= u && u <= 0x201f {
        '"'
    } else if u == 0xa0 || (0x2002 <= u && u <= 0x200a) || u == 0x202f || u == 0x205f || u
        == 0x3000 {
        ' '
    } else {
        c
    }
}

proof fn lemma_trim_end_take(s: Seq<char>, k: int)
    requires
        0 <= k <= s.len(),
        forall|m: int| k <= m < s.len() ==> #[trigger] is_white_space(s[m]),
    ensures
        trim_end(s) == trim_end(s.take(k)),
    decreases s.len() - k,
{
    if k < s.len() {
        assert(s.drop_last() =~= s.take(s.len() - 1));
        assert(s.take(s.len() - 1).take(k) =~= s.take(k));
        lemma_trim_end_take(s.take(s.len() - 1), k);
    } else {
        assert(s.take(k) =~= s);
    }
}

/// The characters of the line with trailing whitespace removed.
fn trimmed_chars(s: &String) -> (r: Vec<char>)
    ensures
        r@ == trim_end(s@),
{
    let mut cs = chars_of(s.as_str());
    let ghost full = cs@;
    while cs.len() > 0 && is_whitespace(cs[cs.len() - 1])
        invariant
            cs@ == full.take(cs@.len() as int),
            cs@.len() <= full.len(),
            forall|m: int| cs@.len() <= m < full.len() ==> #[trigger] is_white_space(full[m]),
        decreases cs@.len(),
    {
        cs.pop();
    }
    proof {
        lemma_trim_end_take(full, cs@.len() as int);
        assert(!(cs@.len() > 0 && is_white_space(cs@.last())));
    }
    cs
}

/// The normalised characters of a line.
fn normalised_chars(s: &String) -> (r: Vec<char>)
    ensures
        r@ == normalise(s@),
{
    let t = trimmed_chars(s);
    let mut out: Vec<char> = Vec::new();
    let n = t.len();
    for i in 0..n
        invariant
            n == t@.len(),
            out@ == t@.take(i as int).map_values(|c: char| punctuation_ascii(c)),
    {
        out.push(ascii_punctuation(t[i]));
        assert(t@.take(i + 1).map_values(|c: char| punctuation_ascii(c)) =~= t@.take(
            i as int,
        ).map_values(|c: char| punctuation_ascii(c)).push(punctuation_ascii(t@[i as int])));
    }
    assert(t@.take(n as int) =~= t@);
    out
}

fn chars_eq(a: &Vec<char>, b: &Vec<char>) -> (r: bool)
    ensures
        r == (a@ == b@),
{
    if a.len() != b.len() {
        return false;
    }
    let n = a.len();
    for i in 0..n
        invariant
            n == a@.len(),
            n == b@.len(),
            forall|m: int| 0 <= m < i ==> a@[m] == b@[m],
    {
        if a[i] != b[i] {
            return false;
        }
    }
    assert(a@ =~= b@);
    true
}

/// Per-line keys used by the two relaxed comparisons.
fn line_keys(v: &[String], normalised: bool) -> (r: Vec<Vec<char>>)
    ensures
        r@.len() == v@.len(),
        forall|m: int|
            0 <= m < v@.len() ==> #[trigger] r@[m]@ == (if normalised {
                normalise(v@[m]@)
            } else {
                trim_end(v@[m]@)
            }),
{
    let mut r: Vec<Vec<char>> = Vec::new();
    let n = v.len();
    for i in 0..n
        invariant
            n == v@.len(),
            r@.len() == i,
            forall|m: int|
                0 <= m < i ==> #[trigger] r@[m]@ == (if normalised {
                    normalise(v@[m]@)
                } else {
                    trim_end(v@[m]@)
                }),
    {
        if normalised {
            r.push(normalised_chars(&v[i]));
        } else {
            r.push(trimmed_chars(&v[i]));
        }
    }
    r
}

fn window_matches(
    lines: &[String],
    pattern: &[String],
    line_keys: &Vec<Vec<char>>,
    pattern_keys: &Vec<Vec<char>>,
    kind: u8,
    i: usize,
) -> (r: bool)
    requires
        i + pattern@.len() <= lines@.len(),
        kind <= 2,
        line_keys@.len() == lines@.len(),
        pattern_keys@.len() == pattern@.len(),
        kind == 1 ==> (forall|m: int| 0 <= m < lines@.len() ==> #[trigger] line_keys@[m]@ == trim_end(lines@[m]@)),
        kind == 1 ==> (forall|m: int| 0 <= m < pattern@.len() ==> #[trigger] pattern_keys@[m]@ == trim_end(pattern@[m]@)),
        kind == 2 ==> (forall|m: int| 0 <= m < lines@.len() ==> #[trigger] line_keys@[m]@ == normalise(lines@[m]@)),
        kind == 2 ==> (forall|m: int| 0 <= m < pattern@.len() ==> #[trigger] pattern_keys@[m]@ == normalise(pattern@[m]@)),
    ensures
        r == matches_at(strictness(kind), views(lines@), views(pattern@), i as int),
{
    let n = pattern.len();
    let ln = lines.len();
    for p in 0..n
        invariant
            n == pattern@.len(),
            ln == lines@.len(),
            i + n <= ln,
            kind <= 2,
            line_keys@.len() == lines@.len(),
            pattern_keys@.len() == pattern@.len(),
            kind == 1 ==> (forall|m: int| 0 <= m < lines@.len() ==> #[trigger] line_keys@[m]@ == trim_end(lines@[m]@)),
            kind == 1 ==> (forall|m: int| 0 <= m < pattern@.len() ==> #[trigger] pattern_keys@[m]@ == trim_end(pattern@[m]@)),
            kind == 2 ==> (forall|m: int| 0 <= m < lines@.len() ==> #[trigger] line_keys@[m]@ == normalise(lines@[m]@)),
            kind == 2 ==> (forall|m: int| 0 <= m < pattern@.len() ==> #[trigger] pattern_keys@[m]@ == normalise(pattern@[m]@)),
            forall|q: int|
                0 <= q < p ==> #[trigger] line_eq(
                    strictness(kind),
                    views(lines@)[i + q],
                    views(pattern@)[q],
                ),
    {
        let same = if kind == 0 {
            lines[i + p] == pattern[p]
        } else {
            chars_eq(&line_keys[i + p], &pattern_keys[p])
        };
        if !same {
            assert(!line_eq(strictness(kind), views(lines@)[i + p], views(pattern@)[p as int]));
            return false;
        }
        assert(line_eq(strictness(kind), views(lines@)[i + p], views(pattern@)[p as int]));
    }
    true
}

pub open spec fn strictness(kind: u8) -> Strictness {
    if kind == 0 {
        Strictness::Exact
    } else if kind == 1 {
        Strictness::TrimEnd
    } else {
        Strictness::Normalised
    }
}

/// Searches `[search_start, search_end]` for the pattern, with decreasing
/// strictness.
pub fn sequence_matches_in_range(
    lines: &[String],
    pattern: &[String],
    search_start: usize,
    search_end: usize,
) -> (r: Option<usize>)
    requires
        search_start <= search_end ==> search_end + pattern@.len() <= lines@.len(),
    ensures
        is_range_result(views(lines@), views(pattern@), search_start as int, search_end as int, r),
{
    if search_start > search_end {
        return None;
    }
    let trimmed_lines = line_keys(lines, false);
    let trimmed_pattern = line_keys(pattern, false);
    let normalised_lines = line_keys(lines, true);
    let normalised_pattern = line_keys(pattern, true);
    let mut kind: u8 = 0;
    while kind < 3
        invariant
            search_start <= search_end,
            search_end + pattern@.len() <= lines@.len(),
            kind <= 3,
            trimmed_lines@.len() == lines@.len(),
            trimmed_pattern@.len() == pattern@.len(),
            normalised_lines@.len() == lines@.len(),
            normalised_pattern@.len() == pattern@.len(),
            forall|m: int| 0 <= m < lines@.len() ==> #[trigger] trimmed_lines@[m]@ == trim_end(lines@[m]@),
            forall|m: int| 0 <= m < pattern@.len() ==> #[trigger] trimmed_pattern@[m]@ == trim_end(pattern@[m]@),
            forall|m: int| 0 <= m < lines@.len() ==> #[trigger] normalised_lines@[m]@ == normalise(lines@[m]@),
            forall|m: int| 0 <= m < pattern@.len() ==> #[trigger] normalised_pattern@[m]@ == normalise(pattern@[m]@),
            forall|k: u8| k < kind ==> !any_match(strictness(k), views(lines@), views(pattern@), search_start as int, search_end as int),
        decreases 3 - kind,
    {
        let (lk, pk) = if kind == 2 {
            (&normalised_lines, &normalised_pattern)
        } else {
            (&trimmed_lines, &trimmed_pattern)
        };
        let mut i = search_start;
        loop
            invariant
                search_start <= i <= search_end,
                search_end + pattern@.len() <= lines@.len(),
                kind < 3,
                lk@.len() == lines@.len(),
                pk@.len() == pattern@.len(),
                kind == 1 ==> (forall|m: int| 0 <= m < lines@.len() ==> #[trigger] lk@[m]@ == trim_end(lines@[m]@)),
                kind == 1 ==> (forall|m: int| 0 <= m < pattern@.len() ==> #[trigger] pk@[m]@ == trim_end(pattern@[m]@)),
                kind == 2 ==> (forall|m: int| 0 <= m < lines@.len() ==> #[trigger] lk@[m]@ == normalise(lines@[m]@)),
                kind == 2 ==> (forall|m: int| 0 <= m < pattern@.len() ==> #[trigger] pk@[m]@ == normalise(pattern@[m]@)),
                forall|k: u8| k < kind ==> !any_match(strictness(k), views(lines@), views(pattern@), search_start as int, search_end as int),
                forall|j: int| search_start <= j < i ==> !#[trigger] matches_at(strictness(kind), views(lines@), views(pattern@), j),
            ensures
                forall|j: int| search_start <= j <= search_end ==> !#[trigger] matches_at(strictness(kind), views(lines@), views(pattern@), j),
            decreases search_end - i,
        {
            if window_matches(lines, pattern, lk, pk, kind, i) {
                proof {
                    if kind == 1 {
                        assert(!any_match(strictness(0), views(lines@), views(pattern@), search_start as int, search_end as int));
                    }
                    if kind == 2 {
                        assert(!any_match(strictness(0), views(lines@), views(pattern@), search_start as int, search_end as int));
                        assert(!any_match(strictness(1), views(lines@), views(pattern@), search_start as int, search_end as int));
                    }
                }
                return Some(i);
            }
            if i == search_end {
                break;
            }
            i = i + 1;
        }
        proof {
            assert(!any_match(strictness(kind), views(lines@), views(pattern@), search_start as int, search_end as int));
            assert forall|k: u8| k < kind + 1 implies !any_match(strictness(k), views(lines@), views(pattern@), search_start as int, search_end as int) by {
                if k < kind {
                } else {
                    assert(k == kind);
                }
            }
        }
        kind = kind + 1;
    }
    proof {
        assert(!any_match(strictness(0), views(lines@), views(pattern@), search_start as int, search_end as int));
        assert(!any_match(strictness(1), views(lines@), views(pattern@), search_start as int, search_end as int));
        assert(!any_match(strictness(2), views(lines@), views(pattern@), search_start as int, search_end as int));
    }
    None
}

/// The answer of `seek_sequence` for the given inputs.
pub open spec fn is_seek_result(lines: Seq<Seq<char>>, pattern: Seq<Seq<char>>, start: int, eof: bool, mode: ApplyPatchFileUpdateMode, r: Option<usize>) -> bool {
    if pattern.len() == 0 {
        r == Some(start as usize)
    } else if pattern.len() > lines.len() {
        r is None
    } else {
        let final_start = lines.len() - pattern.len();
        let can_match_at_eof = mode == ApplyPatchFileUpdateMode::NormalizeToLf || final_start >= start;
        let at_end = matches_at(Strictness::Exact, lines, pattern, final_start) || matches_at(
            Strictness::TrimEnd,
            lines,
            pattern,
            final_start,
        ) || matches_at(Strictness::Normalised, lines, pattern, final_start);
        if eof && can_match_at_eof && at_end {
            r == Some(final_start as usize)
        } else {
            is_range_result(lines, pattern, start, final_start, r)
        }
    }
}

/// Finds where the `pattern` lines occur in `lines` at or after `start`:
/// exact matches first, then ignoring trailing whitespace, then after
/// normalising typographic punctuation. With `eof`, a match at the very end of
/// the file is preferred (not before `start` when line endings are preserved).
pub fn seek_sequence(
    lines: &[String],
    pattern: &[String],
    start: usize,
    eof: bool,
    update_file_mode: ApplyPatchFileUpdateMode,
) -> (r: Option<usize>)
    ensures
        is_seek_result(views(lines@), views(pattern@), start as int, eof, update_file_mode, r),
{
    if pattern.len() == 0 {
        return Some(start);
    }
    if pattern.len() > lines.len() {
        return None;
    }
    let final_start = lines.len() - pattern.len();
    let can_match_at_eof = match update_file_mode {
        ApplyPatchFileUpdateMode::NormalizeToLf => true,
        ApplyPatchFileUpdateMode::PreserveLineEndings => final_start >= start,
    };
    if eof && can_match_at_eof {
        let at_end = sequence_matches_in_range(lines, pattern, final_start, final_start);
        proof {
            let ls = views(lines@);
            let ps = views(pattern@);
            let f = final_start as int;
            if matches_at(Strictness::Exact, ls, ps, f) {
                assert(any_match(Strictness::Exact, ls, ps, f, f));
            }
            if matches_at(Strictness::TrimEnd, ls, ps, f) {
                assert(any_match(Strictness::TrimEnd, ls, ps, f, f));
            }
            if matches_at(Strictness::Normalised, ls, ps, f) {
                assert(any_match(Strictness::Normalised, ls, ps, f, f));
            }
        }
        if at_end.is_some() {
            return Some(final_start);
        }
    }
    sequence_matches_in_range(lines, pattern, start, final_start)
}

/// `b` is `a`, or the plain ASCII character that a typographic `a` stands
/// for: a hyphen for the dashes U+2010..U+2015 and the minus sign U+2212, an
/// apostrophe for the single quotes U+2018..U+201B, a double quote for the
/// double quotes U+201C..U+201F, and a space for the no-break and
/// typographic spaces U+00A0, U+2002..U+200A, U+202F, U+205F and U+3000.
pub open spec fn ascii_lookalike(a: char, b: char) -> bool {
    let u = a as u32;
    ||| a == b
    ||| b == '-' && ((0x2010 <= u && u <= 0x2015) || u == 0x2212)
    ||| b == '\'' && 0x2018 <= u && u <= 0x201b
    ||| b == '"' && 0x201c <= u && u <= 0x201f
    ||| b == ' ' && (u == 0xa0 || (0x2002 <= u && u <= 0x200a) || u == 0x202f || u == 0x205f || u == 0x3000)
}

/// Each character of `b` is the character of `a` at the same place or its
/// ASCII look-alike.
pub open spec fn lookalike_line(a: Seq<char>, b: Seq<char>) -> bool {
    &&& a.len() == b.len()
    &&& forall|i: int| 0 <= i < a.len() ==> ascii_lookalike(#[trigger] a[i], b[i])
}

proof fn lemma_same_trim_len(a: Seq<char>, b: Seq<char>)
    requires
        a.len() == b.len(),
        forall|i: int| 0 <= i < a.len() ==> is_white_space(#[trigger] a[i]) == is_white_space(b[i]),
    ensures
        trim_end(a).len() == trim_end(b).len(),
        trim_end(a).len() <= a.len(),
        trim_end(a) == a.take(trim_end(a).len() as int),
        trim_end(b) == b.take(trim_end(b).len() as int),
    decreases a.len(),
{
    if a.len() > 0 && is_white_space(a.last()) {
        assert(is_white_space(a[a.len() - 1]) == is_white_space(b[b.len() - 1]));
        lemma_same_trim_len(a.drop_last(), b.drop_last());
        let k = trim_end(a.drop_last()).len() as int;
        assert(a.drop_last().take(k) =~= a.take(k));
        assert(b.drop_last().take(k) =~= b.take(k));
    } else {
        if a.len() > 0 {
            assert(is_white_space(a[a.len() - 1]) == is_white_space(b[b.len() - 1]));
        }
        assert(a.take(a.len() as int) =~= a);
        assert(b.take(b.len() as int) =~= b);
    }
}

/// Law: normalisation sees through typographic punctuation: a line and the
/// same line with any of its typographic dashes, quotes and spaces written
/// as their ASCII look-alikes match at the normalised stage.
pub proof fn lemma_lookalike_lines_match_normalised(a: Seq<char>, b: Seq<char>)
    requires
        lookalike_line(a, b),
    ensures
        line_eq(Strictness::Normalised, a, b),
{
    assert forall|i: int| 0 <= i < a.len() implies is_white_space(#[trigger] a[i]) == is_white_space(b[i]) by {
        assert(ascii_lookalike(a[i], b[i]));
    }
    lemma_same_trim_len(a, b);
    let ta = trim_end(a);
    let tb = trim_end(b);
    assert forall|i: int| 0 <= i < ta.len() implies punctuation_ascii(#[trigger] ta[i]) == punctuation_ascii(tb[i]) by {
        assert(ta[i] == a[i]);
        assert(tb[i] == b[i]);
        assert(ascii_lookalike(a[i], b[i]));
    }
    assert(normalise(a) =~= normalise(b));
}

/// Law: a pattern whose lines are lines of the file from some position at
/// or after `start`, with typographic punctuation written in ASCII, is
/// always found: the search gives a position.
pub proof fn lemma_lookalike_pattern_is_found(
    lines: Seq<Seq<char>>,
    pattern: Seq<Seq<char>>,
    start: int,
    eof: bool,
    mode: ApplyPatchFileUpdateMode,
    at: int,
    r: Option<usize>,
)
    requires
        0 < pattern.len() <= lines.len(),
        0 <= start <= at <= lines.len() - pattern.len(),
        forall|p: int| 0 <= p < pattern.len() ==> lookalike_line(#[trigger] lines[at + p], pattern[p]),
        is_seek_result(lines, pattern, start, eof, mode, r),
    ensures
        r is Some,
{
    assert forall|p: int| 0 <= p < pattern.len() implies #[trigger] line_eq(
        Strictness::Normalised,
        lines[at + p],
        pattern[p],
    ) by {
        assert(lookalike_line(lines[at + p], pattern[p]));
        lemma_lookalike_lines_match_normalised(lines[at + p], pattern[p]);
    }
    assert(matches_at(Strictness::Normalised, lines, pattern, at));
}

} // verus!
