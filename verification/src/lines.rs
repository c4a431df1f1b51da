//! Splitting text into lines and trimming whitespace, as `str::lines` and
//! `str::trim` do.
use vstd::prelude::*;

use crate::seek_sequence::{is_white_space, is_whitespace, trim_end};
use crate::text::{chars_of, string_from_chars};

verus! {

broadcast use vstd::string::group_string_axioms;

/// `s` without its leading whitespace.
pub open spec fn trim_start(s: Seq<char>) -> Seq<char>
    decreases s.len(),
{
    if s.len() > 0 && is_white_space(s[0]) {
        trim_start(s.drop_first())
    } else {
        s
    }
}

/// `s` without leading and trailing whitespace (`str::trim`).
pub open spec fn trim(s: Seq<char>) -> Seq<char> {
    trim_start(trim_end(s))
}

/// The characters of `v` from `start` to `end`.
pub fn chars_between(v: &Vec<char>, start: usize, end: usize) -> (r: Vec<char>)
    requires
        start <= end <= v@.len(),
    ensures
        r@ == v@.subrange(start as int, end as int),
{
    let mut r: Vec<char> = Vec::new();
    let mut i = start;
    while i < end
        invariant
            start <= i <= end <= v@.len(),
            r@ == v@.subrange(start as int, i as int),
        decreases end - i,
    {
        r.push(v[i]);
        assert(v@.subrange(start as int, i + 1) =~= v@.subrange(start as int, i as int).push(v@[i as int]));
        i = i + 1;
    }
    r
}

/// The text without leading and trailing whitespace.
pub fn trim_str(s: &str) -> (r: String)
    ensures
        r@ == trim(s@),
{
    let cs = chars_of(s);
    let mut end = cs.len();
    assert(cs@.take(end as int) =~= cs@);
    while end > 0 && is_whitespace(cs[end - 1])
        invariant
            end <= cs@.len(),
            trim_end(cs@) == trim_end(cs@.take(end as int)),
        decreases end,
    {
        assert(cs@.take(end as int).drop_last() =~= cs@.take(end - 1));
        end = end - 1;
    }
    let ghost t = cs@.take(end as int);
    assert(trim_end(t) == t);
    let mut start: usize = 0;
    assert(t.skip(0) =~= t);
    while start < end && is_whitespace(cs[start])
        invariant
            start <= end <= cs@.len(),
            t == cs@.take(end as int),
            trim_start(t) == trim_start(t.skip(start as int)),
        decreases end - start,
    {
        assert(t.skip(start as int).drop_first() =~= t.skip(start + 1));
        start = start + 1;
    }
    let kept = chars_between(&cs, start, end);
    assert(t.skip(start as int) =~= cs@.subrange(start as int, end as int));
    string_from_chars(kept.as_slice())
}

/// Where the line that starts at `i` ends: the next line feed, or the end.
pub open spec fn line_end(s: Seq<char>, i: int) -> int
    decreases s.len() - i,
{
    if i >= s.len() {
        s.len() as int
    } else if s[i] == '\n' {
        i
    } else {
        line_end(s, i + 1)
    }
}

/// The end of the line at `i` is the first line feed from `i` on, or the
/// end of the text.
pub proof fn lemma_line_end(s: Seq<char>, i: int)
    requires
        0 <= i <= s.len(),
    ensures
        i <= line_end(s, i) <= s.len(),
        line_end(s, i) < s.len() ==> s[line_end(s, i)] == '\n',
        forall|j: int| i <= j < line_end(s, i) ==> s[j] != '\n',
    decreases s.len() - i,
{
    if i < s.len() && s[i] != '\n' {
        lemma_line_end(s, i + 1);
    }
}

/// A line without the carriage return of a `\r\n` ending.
pub open spec fn without_cr(line: Seq<char>, ended: bool) -> Seq<char> {
    if ended && line.len() > 0 && line.last() == '\r' {
        line.drop_last()
    } else {
        line
    }
}

/// The lines of `s` (`str::lines`): split at line feeds, a carriage return
/// before a line feed dropped, and no empty line after a final line feed.
pub open spec fn lines_of(s: Seq<char>) -> Seq<Seq<char>>
    decreases s.len(),
{
    if s.len() == 0 {
        Seq::empty()
    } else {
        let e = line_end(s, 0);
        let line = without_cr(s.take(e), e < s.len());
        if e < s.len() {
            proof {
                lemma_line_end(s, 0);
            }
            seq![line] + lines_of(s.skip(e + 1))
        } else {
            seq![line]
        }
    }
}

/// The lines of the text.
pub fn split_lines(text: &str) -> (r: Vec<String>)
    ensures
        r@.len() == lines_of(text@).len(),
        forall|i: int| 0 <= i < r@.len() ==> #[trigger] r@[i]@ == lines_of(text@)[i],
{
    let cs = chars_of(text);
    let n = cs.len();
    let mut out: Vec<String> = Vec::new();
    let mut start: usize = 0;
    assert(cs@.skip(0) =~= cs@);
    while start < n
        invariant
            start <= n,
            n == cs@.len(),
            cs@ == text@,
            forall|i: int| 0 <= i < out@.len() ==> #[trigger] out@[i]@ == lines_of(text@)[i],
            lines_of(text@) =~= out@.map_values(|l: String| l@) + lines_of(cs@.skip(start as int)),
        decreases n - start,
    {
        let ghost rest = cs@.skip(start as int);
        let mut e = start;
        while e < n && cs[e] != '\n'
            invariant
                start <= e <= n,
                n == cs@.len(),
                rest == cs@.skip(start as int),
                line_end(rest, 0) == line_end(rest, e - start),
            decreases n - e,
        {
            e = e + 1;
        }
        proof {
            lemma_line_end(rest, 0);
        }
        let ended = e < n;
        let mut stop = e;
        if ended && stop > start && cs[stop - 1] == '\r' {
            stop = stop - 1;
        }
        let piece = chars_between(&cs, start, stop);
        let line = string_from_chars(piece.as_slice());
        proof {
            assert(rest.take(e - start) =~= cs@.subrange(start as int, e as int));
            assert(line@ == without_cr(rest.take(e - start), ended));
            if ended {
                assert(rest.skip(e - start + 1) =~= cs@.skip(e + 1));
            }
        }
        let ghost before = out@;
        out.push(line);
        proof {
            assert(out@.map_values(|l: String| l@) =~= before.map_values(|l: String| l@).push(line@));
        }
        start = if ended {
            e + 1
        } else {
            n
        };
        proof {
            if !ended {
                assert(cs@.skip(start as int) =~= Seq::<char>::empty());
            }
        }
    }
    proof {
        assert(cs@.skip(start as int) =~= Seq::<char>::empty());
        assert(out@.map_values(|l: String| l@).len() == out@.len());
    }
    out
}

} // verus!
