//! What a page of a plain text file holds: reading a file line by line, as
//! the host does (feed each line with its line feed, decode the line set
//! aside as UTF-8, hand the text back), yields exactly the numbered entries
//! of the requested lines.
use vstd::prelude::*;
use vstd::utf8::*;

use crate::file_read::{
    accepted, byte_step, captured, fed, fed_bytes, finished, initial_state, line_finished,
    line_prefix, next_line, paused, should_capture, stopped, strip_bom_char, strip_cr, waiting,
    LineEncoding, ReadError, ReadState, BINARY_SAMPLE_BYTES, MAX_CAPTURED_LINE_BYTES,
    MAX_RESULT_BYTES,
};
use crate::text::{starts_with_seq, utf8};

verus! {

/// The state after one byte that is neither NUL nor a line feed, before the
/// page is full: it is counted, and kept when the line belongs to the page.
pub open spec fn counted(s: ReadState) -> ReadState {
    if s.sample_bytes < BINARY_SAMPLE_BYTES {
        ReadState { sample_bytes: (s.sample_bytes + 1) as usize, ..s }
    } else {
        s
    }
}

/// The state after the bytes of a line and its line feed.
pub open spec fn line_fed(s: ReadState, l: Seq<u8>) -> ReadState
    decreases l.len(),
{
    if l.len() == 0 {
        line_finished(counted(s))
    } else {
        line_fed(captured(ReadState { current_line_has_data: true, ..counted(s) }, seq![l[0]]), l.drop_first())
    }
}

/// A line of a plain text file: no NUL and no line feed, short enough to be
/// kept whole, valid UTF-8, and not the decoder's binary marker.
pub open spec fn plain_line(l: Seq<u8>) -> bool {
    &&& l.len() <= MAX_CAPTURED_LINE_BYTES
    &&& forall|i: int| 0 <= i < l.len() ==> #[trigger] l[i] != 0u8 && l[i] != 10u8
    &&& valid_utf8(l)
    &&& !starts_with_seq(decode_utf8(l), "[Binary output:"@)
}

proof fn lemma_line_fed(s: ReadState, l: Seq<u8>)
    requires
        !paused(s),
        !waiting(s),
        !s.current_line_truncated,
        s.current_line.len() + l.len() <= MAX_CAPTURED_LINE_BYTES,
        forall|i: int| 0 <= i < l.len() ==> #[trigger] l[i] != 0u8 && l[i] != 10u8,
    ensures
        fed_bytes(s, l.push(10u8)) == Ok::<(ReadState, nat), ReadError>((line_fed(s, l), (l.len() + 1) as nat)),
        line_fed(s, l) == line_finished(
            ReadState {
                current_line: if should_capture(s) {
                    s.current_line + l
                } else {
                    s.current_line
                },
                current_line_has_data: s.current_line_has_data || l.len() > 0,
                sample_bytes: line_fed(s, l).sample_bytes,
                ..s
            },
        ),
    decreases l.len(),
{
    let line = l.push(10u8);
    if l.len() == 0 {
        assert(line =~= seq![10u8]);
        assert(line.drop_first() =~= Seq::<u8>::empty());
        assert(byte_step(s, 10u8) == Ok::<ReadState, ReadError>(line_finished(counted(s))));
        assert(fed_bytes(line_finished(counted(s)), line.drop_first()) == Ok::<(ReadState, nat), ReadError>(
            (line_finished(counted(s)), 0nat),
        ));
    } else {
        let s2 = captured(ReadState { current_line_has_data: true, ..counted(s) }, seq![l[0]]);
        assert(l[0] != 0u8 && l[0] != 10u8);
        assert(line[0] == l[0]);
        assert(line.drop_first() =~= l.drop_first().push(10u8));
        assert forall|i: int| 0 <= i < l.drop_first().len() implies #[trigger] l.drop_first()[i] != 0u8
            && l.drop_first()[i] != 10u8 by {
            assert(l.drop_first()[i] == l[i + 1]);
        }
        if should_capture(s) {
            assert(seq![l[0]].take(1) =~= seq![l[0]]);
            assert(s2.current_line == s.current_line + seq![l[0]]);
            assert(s.current_line + seq![l[0]] + l.drop_first() =~= s.current_line + l);
        }
        assert(byte_step(s, l[0]) == Ok::<ReadState, ReadError>(s2));
        lemma_line_fed(s2, l.drop_first());
    }
}

/// The text of a line as the page shows it: decoded, without a leading
/// byte-order mark and a final carriage return.
pub open spec fn shown_text(l: Seq<u8>) -> Seq<char> {
    strip_cr(strip_bom_char(decode_utf8(l)))
}

/// The page entry of line number `n`: the number, a colon, a space, the
/// line's text and a line feed.
pub open spec fn entry(n: usize, l: Seq<u8>) -> Seq<u8> {
    utf8(line_prefix(n)) + utf8(shown_text(l)) + seq![10u8]
}

/// Line number `n` belongs to the page of `limit` lines from `offset`.
pub open spec fn in_page(n: int, offset: usize, limit: usize) -> bool {
    offset <= n < offset + limit
}

/// The entries of the page's lines among `lines`, numbered from one.
pub open spec fn page_text(lines: Seq<Seq<u8>>, offset: usize, limit: usize) -> Seq<u8>
    decreases lines.len(),
{
    if lines.len() == 0 {
        Seq::empty()
    } else {
        page_text(lines.drop_last(), offset, limit) + if in_page(lines.len() as int, offset, limit) {
            entry(lines.len() as usize, lines.last())
        } else {
            Seq::empty()
        }
    }
}

/// How many of the lines numbered 1 to `n` belong to the page.
pub open spec fn page_count(n: int, offset: usize, limit: usize) -> int {
    if n < offset {
        0
    } else if n < offset + limit {
        n - offset + 1
    } else {
        limit as int
    }
}

/// The host's handling of one line of a byte-oriented file: the line and its
/// line feed are fed, and a line set aside for the page is decoded as UTF-8
/// and handed back.
pub open spec fn line_read(s: ReadState, l: Seq<u8>) -> ReadState {
    if paused(s) {
        s
    } else {
        match fed(s, l.push(10u8)) {
            Ok((t, _)) => match t.pending_line {
                Some(p) => match accepted(t, decode_utf8(p)) {
                    Ok(u) => u,
                    Err(_) => t,
                },
                None => t,
            },
            Err(_) => s,
        }
    }
}

/// The reader after the host handled `lines` one after the other.
pub open spec fn read_lines(s: ReadState, lines: Seq<Seq<u8>>) -> ReadState
    decreases lines.len(),
{
    if lines.len() == 0 {
        s
    } else {
        line_read(read_lines(s, lines.drop_last()), lines.last())
    }
}

/// The reader between lines, after the host handled `lines`.
pub open spec fn at_boundary(s: ReadState, offset: usize, limit: usize, lines: Seq<Seq<u8>>) -> bool {
    let n = lines.len() as int;
    &&& s.encoding == LineEncoding::ByteOriented
    &&& s.offset == offset
    &&& s.limit == limit
    &&& s.current_line.len() == 0
    &&& !s.current_line_has_data
    &&& !s.current_line_truncated
    &&& s.pending_utf16_byte is None
    &&& s.pending_line is None
    &&& !s.output_truncated
    &&& !s.reached_eof
    &&& s.content == page_text(lines, offset, limit)
    &&& s.returned_lines == page_count(n, offset, limit)
    &&& if n < offset + limit {
        !s.done && !s.has_more_lines && s.line_number == n + 1
    } else {
        s.done && s.has_more_lines && s.line_number == offset + limit
    }
}

proof fn lemma_line_read_step(s: ReadState, offset: usize, limit: usize, lines: Seq<Seq<u8>>, l: Seq<u8>)
    requires
        at_boundary(s, offset, limit, lines),
        plain_line(l),
        offset >= 1,
        limit >= 1,
        lines.len() + 1 < usize::MAX,
        page_text(lines.push(l), offset, limit).len() <= MAX_RESULT_BYTES,
    ensures
        at_boundary(line_read(s, l), offset, limit, lines.push(l)),
{
    let all = lines.push(l);
    let n = lines.len() as int;
    let m = n + 1;
    assert(all.drop_last() =~= lines);
    assert(all.last() == l);
    if n >= offset + limit {
        assert(paused(s));
    } else if m == offset + limit {
        assert(waiting(s));
        let line = l.push(10u8);
        assert(line.len() > 0);
        assert(byte_step(s, line[0]) == Ok::<ReadState, ReadError>(stopped(s)));
        assert(fed_bytes(stopped(s), line.drop_first()) == Ok::<(ReadState, nat), ReadError>((stopped(s), 0nat)));
        assert(fed(s, line) == Ok::<(ReadState, nat), ReadError>((stopped(s), 1nat)));
    } else {
        assert(!waiting(s));
        assert(!paused(s));
        lemma_line_fed(s, l);
        let x = ReadState {
            current_line: if should_capture(s) {
                s.current_line + l
            } else {
                s.current_line
            },
            current_line_has_data: s.current_line_has_data || l.len() > 0,
            sample_bytes: line_fed(s, l).sample_bytes,
            ..s
        };
        assert(fed(s, l.push(10u8)) == Ok::<(ReadState, nat), ReadError>((line_finished(x), (l.len() + 1) as nat)));
        if m < offset {
            assert(!should_capture(s));
            assert(!should_capture(x));
            assert(line_finished(x) == next_line(x));
            assert(s.current_line =~= Seq::<u8>::empty());
        } else {
            assert(should_capture(s));
            assert(x.current_line =~= l);
            let t = line_finished(x);
            assert(t.pending_line == Some(l));
            let d = utf8(shown_text(l));
            let prefix = utf8(line_prefix(t.line_number));
            assert(page_text(all, offset, limit) == page_text(lines, offset, limit) + entry(m as usize, l));
            assert(entry(m as usize, l) == prefix + d + seq![10u8]);
            assert(accepted(t, decode_utf8(l)) == Ok::<ReadState, ReadError>(
                next_line(
                    ReadState {
                        content: t.content + prefix + d + seq![10u8],
                        returned_lines: (t.returned_lines + 1) as usize,
                        ..t
                    },
                ),
            ));
            assert(line_read(s, l).content =~= page_text(all, offset, limit));
        }
    }
}

/// Law: a page of a plain text file holds exactly the numbered entries of
/// the requested lines. When the host feeds the file line by line, hands
/// back each line set aside decoded as UTF-8, and then ends the file, the
/// page's text is the entries of lines `offset` to `offset + limit - 1` that
/// exist, its line count is their number, and it reports more lines exactly
/// when the file goes on past the page. (Pages whose entries exceed the
/// 32 KiB budget are cut instead, and are left out here.)
pub proof fn lemma_page_holds_the_requested_lines(offset: usize, limit: usize, lines: Seq<Seq<u8>>)
    requires
        offset >= 1,
        limit >= 1,
        lines.len() + 1 < usize::MAX,
        forall|i: int| 0 <= i < lines.len() ==> plain_line(#[trigger] lines[i]),
        page_text(lines, offset, limit).len() <= MAX_RESULT_BYTES,
    ensures
        ({
            let s = read_lines(initial_state(offset, limit, LineEncoding::ByteOriented), lines);
            &&& s.content == page_text(lines, offset, limit)
            &&& s.returned_lines == page_count(lines.len() as int, offset, limit)
            &&& s.has_more_lines == (lines.len() >= offset + limit)
            &&& s.pending_line is None
            &&& finished(s) == Ok::<ReadState, ReadError>(ReadState { reached_eof: true, ..s })
        }),
    decreases lines.len(),
{
    lemma_lines_read(offset, limit, lines);
}

proof fn lemma_lines_read(offset: usize, limit: usize, lines: Seq<Seq<u8>>)
    requires
        offset >= 1,
        limit >= 1,
        lines.len() + 1 < usize::MAX,
        forall|i: int| 0 <= i < lines.len() ==> plain_line(#[trigger] lines[i]),
        page_text(lines, offset, limit).len() <= MAX_RESULT_BYTES,
    ensures
        at_boundary(read_lines(initial_state(offset, limit, LineEncoding::ByteOriented), lines), offset, limit, lines),
    decreases lines.len(),
{
    let s0 = initial_state(offset, limit, LineEncoding::ByteOriented);
    if lines.len() == 0 {
        assert(page_text(lines, offset, limit) =~= Seq::<u8>::empty());
    } else {
        let prefix = lines.drop_last();
        assert forall|i: int| 0 <= i < prefix.len() implies plain_line(#[trigger] prefix[i]) by {
            assert(prefix[i] == lines[i]);
        }
        assert(page_text(prefix, offset, limit).len() <= page_text(lines, offset, limit).len());
        lemma_lines_read(offset, limit, prefix);
        assert(plain_line(lines[lines.len() - 1]));
        assert(prefix.push(lines.last()) =~= lines);
        lemma_line_read_step(read_lines(s0, prefix), offset, limit, prefix, lines.last());
    }
}

} // verus!
