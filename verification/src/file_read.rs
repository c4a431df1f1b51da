//! Bounded, line-numbered reading of a text file that arrives in chunks.
//!
//! The reader keeps at most one page of lines: it captures the lines from the
//! requested offset, stops once the page is full (after confirming that a
//! further line exists), and never lets the page's text exceed 32 KiB.
//! Turning a captured line's bytes into text is left to the caller: the
//! reader stops with the line's bytes pending, and resumes with the decoded
//! text.
use vstd::prelude::*;
use vstd::string::StringSliceAdditionalSpecFns;
use vstd::utf8::*;

use crate::text::{
    append_str, chars_of, decimal, decimal_string, floor_boundary, floor_char_boundary,
    lemma_encode_concat, starts_with_seq, str_prefix, string_from_chars, utf8,
};

verus! {

broadcast use vstd::string::group_string_axioms;

/// Lines returned when no limit is given.
pub const DEFAULT_READ_LINES: usize = 400;

/// The largest page, in lines.
pub const MAX_READ_LINES: usize = 1000;

/// The largest page text, in bytes.
pub const MAX_RESULT_BYTES: usize = 32768;

/// Bytes of one line that are kept for its page entry.
pub const MAX_CAPTURED_LINE_BYTES: usize = 65536;

/// Bytes at the start of a byte-oriented file that are checked for NUL.
pub const BINARY_SAMPLE_BYTES: usize = 8192;

/// How a file's lines are encoded, as told by its byte-order mark.
#[derive(Clone, Copy, Debug, PartialEq, Eq, Structural)]
pub enum LineEncoding {
    ByteOriented,
    Utf16Le,
    Utf16Be,
}

/// The byte-order mark of an encoding (none for byte-oriented text).
pub open spec fn bom_of(e: LineEncoding) -> Seq<u8> {
    match e {
        LineEncoding::ByteOriented => Seq::empty(),
        LineEncoding::Utf16Le => seq![0xffu8, 0xfeu8],
        LineEncoding::Utf16Be => seq![0xfeu8, 0xffu8],
    }
}

/// The encoding that a file's first bytes announce.
pub open spec fn detected(b: Seq<u8>) -> LineEncoding {
    if starts_with_seq(b, seq![0xffu8, 0xfeu8]) {
        LineEncoding::Utf16Le
    } else if starts_with_seq(b, seq![0xfeu8, 0xffu8]) {
        LineEncoding::Utf16Be
    } else {
        LineEncoding::ByteOriented
    }
}

impl LineEncoding {
    /// The encoding announced by the first bytes, and the bytes after its
    /// byte-order mark.
    pub fn detect(bytes: &[u8]) -> (r: (LineEncoding, &[u8]))
        ensures
            r.0 == detected(bytes@),
            r.1@ == bytes@.skip(bom_of(r.0).len() as int),
    {
        if bytes.len() >= 2 && bytes[0] == 0xff && bytes[1] == 0xfe {
            let (_, rest) = bytes.split_at(2);
            assert(bytes@.subrange(0, 2) =~= seq![0xffu8, 0xfeu8]);
            assert(rest@ =~= bytes@.skip(2));
            (LineEncoding::Utf16Le, rest)
        } else if bytes.len() >= 2 && bytes[0] == 0xfe && bytes[1] == 0xff {
            let (_, rest) = bytes.split_at(2);
            assert(bytes@.subrange(0, 2) =~= seq![0xfeu8, 0xffu8]);
            assert(!(bytes@.subrange(0, 2) =~= seq![0xffu8, 0xfeu8]));
            assert(rest@ =~= bytes@.skip(2));
            (LineEncoding::Utf16Be, rest)
        } else {
            proof {
                if bytes@.len() >= 2 {
                    assert(bytes@.subrange(0, 2)[0] == bytes@[0]);
                    assert(bytes@.subrange(0, 2)[1] == bytes@[1]);
                }
            }
            assert(bytes@.skip(0) =~= bytes@);
            (LineEncoding::ByteOriented, bytes)
        }
    }

    /// The byte-order mark of the encoding.
    pub fn bom(self) -> (r: Vec<u8>)
        ensures
            r@ == bom_of(self),
    {
        match self {
            LineEncoding::ByteOriented => Vec::new(),
            LineEncoding::Utf16Le => vec![0xffu8, 0xfeu8],
            LineEncoding::Utf16Be => vec![0xfeu8, 0xffu8],
        }
    }
}

/// The longest prefix of UTF-8 bytes that ends at a character boundary and
/// has at most `max` bytes.
pub open spec fn utf8_prefix(b: Seq<u8>, max: int) -> Seq<u8> {
    if b.len() <= max {
        b
    } else {
        b.take(floor_boundary(b, max))
    }
}

/// The marker that ends a truncated entry.
pub open spec fn truncation_marker() -> Seq<char> {
    "\u{2026}\n"@
}

/// The bytes that a truncated entry adds within a budget of `max` bytes: as
/// much of the text as fits with the marker, then the marker; or, where the
/// marker itself does not fit, as much of the text as fits.
pub open spec fn truncated_entry(text: Seq<u8>, max: int) -> Seq<u8> {
    let marker = utf8(truncation_marker());
    if max >= marker.len() {
        utf8_prefix(text, max - marker.len()) + marker
    } else {
        utf8_prefix(text, max)
    }
}

/// The text cut to at most `max_bytes` bytes at a character boundary.
pub fn truncate_utf8(text: &str, max_bytes: usize) -> (r: &str)
    ensures
        r.spec_bytes() == utf8_prefix(text.spec_bytes(), max_bytes as int),
        r.spec_bytes().len() <= max_bytes || text.spec_bytes().len() <= max_bytes,
{
    if text.as_bytes().len() <= max_bytes {
        return text;
    }
    let end = floor_char_boundary(text, max_bytes);
    proof {
        encode_utf8_valid_utf8(text@);
        crate::text::lemma_floor_boundary(text.spec_bytes(), max_bytes as int);
        assert(text.spec_bytes().take(end as int) =~= text.spec_bytes().subrange(0, end as int));
    }
    str_prefix(text, end)
}

/// The UTF-8 prefix of valid text fits its budget and is itself valid.
pub proof fn lemma_utf8_prefix_len(b: Seq<u8>, max: int)
    requires
        valid_utf8(b),
        max >= 0,
    ensures
        utf8_prefix(b, max).len() <= max,
        valid_utf8(utf8_prefix(b, max)),
{
    if b.len() > max {
        crate::text::lemma_floor_boundary(b, max);
        valid_utf8_split(b, floor_boundary(b, max));
        assert(b.take(floor_boundary(b, max)) =~= b.subrange(0, floor_boundary(b, max)));
    }
}

/// Law: a truncated entry never exceeds its budget.
pub proof fn lemma_truncated_entry_fits(text: Seq<u8>, max: int)
    requires
        valid_utf8(text),
        max >= 0,
    ensures
        truncated_entry(text, max).len() <= max,
{
    let marker = utf8(truncation_marker());
    if max >= marker.len() {
        lemma_utf8_prefix_len(text, max - marker.len());
    } else {
        lemma_utf8_prefix_len(text, max);
    }
}

/// Appends `text`, cut to fit `max_bytes` bytes, followed by the truncation
/// marker when the marker fits.
pub fn append_truncated_text(output: &mut String, text: &str, max_bytes: usize)
    ensures
        utf8(final(output)@) == utf8(old(output)@) + truncated_entry(text.spec_bytes(), max_bytes as int),
{
    let marker = "\u{2026}\n";
    let mlen = marker.as_bytes().len();
    let ghost before = output@;
    if max_bytes >= mlen {
        let head = truncate_utf8(text, max_bytes - mlen);
        append_str(output, head);
        append_str(output, marker);
        proof {
            lemma_encode_concat(before, head@);
            lemma_encode_concat(before + head@, marker@);
        }
    } else {
        let head = truncate_utf8(text, max_bytes);
        append_str(output, head);
        proof {
            lemma_encode_concat(before, head@);
        }
    }
}

/// Names the position at which bytes that end inside a UTF-8 sequence stop
/// being valid: `Some(valid_up_to)` when `std::str::from_utf8` fails only
/// because the input ended early, else `None`.
pub uninterp spec fn incomplete_utf8_tail(bytes: Seq<u8>) -> Option<nat>;

/// Calls `std::str::from_utf8` and reads its error's `valid_up_to` when the
/// error's `error_len` is `None` (the input ended inside a sequence). The
/// contract claims that the result is the named `incomplete_utf8_tail`, and,
/// as the standard library documents, that such a position is the end of the
/// longest valid UTF-8 prefix of the bytes and lies one to three bytes
/// before their end.
#[verifier::external_body]
fn utf8_incomplete_tail(bytes: &[u8]) -> (r: Option<usize>)
    ensures
        match r {
            Some(k) => {
                &&& incomplete_utf8_tail(bytes@) == Some(k as nat)
                &&& k < bytes@.len() <= k + 3
                &&& valid_utf8(bytes@.take(k as int))
                &&& forall|j: int| k < j <= bytes@.len() ==> !valid_utf8(#[trigger] bytes@.take(j))
            },
            None => incomplete_utf8_tail(bytes@) is None,
        },
{
    match std::str::from_utf8(bytes) {
        Err(error) if error.error_len().is_none() => Some(error.valid_up_to()),
        _ => None,
    }
}

/// The bytes with an unfinished final UTF-8 sequence removed.
pub open spec fn trimmed_tail(bytes: Seq<u8>) -> Seq<u8> {
    match incomplete_utf8_tail(bytes) {
        Some(k) => bytes.take(k as int),
        None => bytes,
    }
}

/// Drops an unfinished UTF-8 sequence at the end of the bytes.
pub fn trim_incomplete_utf8_tail(bytes: &mut Vec<u8>)
    ensures
        final(bytes)@ == trimmed_tail(old(bytes)@),
{
    match utf8_incomplete_tail(bytes.as_slice()) {
        Some(k) => {
            bytes.truncate(k);
            assert(bytes@ =~= old(bytes)@.take(k as int));
        },
        None => {},
    }
}

/// Why reading a file fails.
#[derive(Clone, Copy, Debug, PartialEq, Eq)]
pub enum ReadError {
    /// The file holds a NUL byte early on, or its text decodes as binary.
    Binary,
    /// A UTF-16 file ends in the middle of a code unit.
    IncompleteUtf16,
}

impl ReadError {
    /// The error's message.
    pub fn message(self) -> (r: &'static str)
        ensures
            r@ == match self {
                ReadError::Binary => "read_file only supports text files; the selected file appears to be binary"@,
                ReadError::IncompleteUtf16 => "UTF-16 file has an incomplete final code unit"@,
            },
    {
        match self {
            ReadError::Binary => "read_file only supports text files; the selected file appears to be binary",
            ReadError::IncompleteUtf16 => "UTF-16 file has an incomplete final code unit",
        }
    }
}

/// The reader's state, with its buffers as sequences and its page text as
/// UTF-8 bytes.
pub ghost struct ReadState {
    pub offset: usize,
    pub limit: usize,
    pub encoding: LineEncoding,
    pub line_number: usize,
    pub current_line: Seq<u8>,
    pub current_line_has_data: bool,
    pub current_line_truncated: bool,
    pub pending_utf16_byte: Option<u8>,
    pub sample_bytes: usize,
    pub content: Seq<u8>,
    pub returned_lines: usize,
    pub output_truncated: bool,
    pub has_more_lines: bool,
    pub reached_eof: bool,
    pub done: bool,
    pub pending_line: Option<Seq<u8>>,
}

/// One more, saturating.
pub open spec fn sat_inc(n: usize) -> usize {
    if n < usize::MAX {
        (n + 1) as usize
    } else {
        n
    }
}

/// The current line belongs to the page.
pub open spec fn should_capture(s: ReadState) -> bool {
    s.line_number >= s.offset && s.returned_lines < s.limit && !s.output_truncated
}

/// The page is complete; the reader only waits to learn whether a further
/// line exists.
pub open spec fn waiting(s: ReadState) -> bool {
    s.returned_lines >= s.limit || s.output_truncated
}

/// The reader has stopped, for good or until its pending line is decoded.
pub open spec fn paused(s: ReadState) -> bool {
    s.done || s.pending_line is Some
}

/// The state after bytes `b` of the current line are kept, up to 64 KiB per
/// line (a line that does not fit is marked truncated).
pub open spec fn captured(s: ReadState, b: Seq<u8>) -> ReadState {
    if !should_capture(s) {
        s
    } else {
        let remaining = if MAX_CAPTURED_LINE_BYTES >= s.current_line.len() {
            MAX_CAPTURED_LINE_BYTES - s.current_line.len()
        } else {
            0
        };
        let kept = if b.len() <= remaining {
            b.len() as int
        } else {
            remaining
        };
        ReadState {
            current_line: s.current_line + b.take(kept),
            current_line_truncated: s.current_line_truncated || b.len() > remaining,
            ..s
        }
    }
}

/// The bytes handed over for decoding: the byte-order mark and the kept
/// line, without an unfinished final UTF-8 sequence when a byte-oriented
/// line was cut.
pub open spec fn line_bytes(s: ReadState) -> Seq<u8> {
    let encoded = bom_of(s.encoding) + s.current_line;
    if s.current_line_truncated && s.encoding == LineEncoding::ByteOriented {
        trimmed_tail(encoded)
    } else {
        encoded
    }
}

/// The state at the start of the next line.
pub open spec fn next_line(s: ReadState) -> ReadState {
    ReadState {
        current_line: Seq::empty(),
        current_line_has_data: false,
        current_line_truncated: false,
        line_number: sat_inc(s.line_number),
        pending_line: None,
        ..s
    }
}

/// The state after the current line ends: a line of the page waits to be
/// decoded; any other line is skipped.
pub open spec fn line_finished(s: ReadState) -> ReadState {
    if should_capture(s) {
        ReadState { current_line: Seq::empty(), pending_line: Some(line_bytes(s)), ..s }
    } else {
        next_line(s)
    }
}

/// The state once a further line is known to exist.
pub open spec fn stopped(s: ReadState) -> ReadState {
    ReadState { has_more_lines: true, done: true, ..s }
}

/// One byte of a byte-oriented file.
pub open spec fn byte_step(s: ReadState, b: u8) -> Result<ReadState, ReadError> {
    if waiting(s) {
        Ok(stopped(s))
    } else if s.sample_bytes < BINARY_SAMPLE_BYTES && b == 0 {
        Err(ReadError::Binary)
    } else {
        let s1 = if s.sample_bytes < BINARY_SAMPLE_BYTES {
            ReadState { sample_bytes: (s.sample_bytes + 1) as usize, ..s }
        } else {
            s
        };
        if b == 10 {
            Ok(line_finished(s1))
        } else {
            Ok(captured(ReadState { current_line_has_data: true, ..s1 }, seq![b]))
        }
    }
}

/// The code unit `a b` is a line feed in the encoding.
pub open spec fn is_newline_unit(e: LineEncoding, a: u8, b: u8) -> bool {
    if e == LineEncoding::Utf16Le {
        a + 256 * b == 10
    } else {
        256 * a + b == 10
    }
}

/// One code unit of a UTF-16 file.
pub open spec fn unit_step(s: ReadState, a: u8, b: u8) -> ReadState {
    if waiting(s) {
        stopped(s)
    } else if is_newline_unit(s.encoding, a, b) {
        line_finished(s)
    } else {
        captured(ReadState { current_line_has_data: true, ..s }, seq![a, b])
    }
}

/// Feeding bytes of a byte-oriented file: the state and the bytes consumed
/// before the reader paused or the bytes ran out, or the error.
pub open spec fn fed_bytes(s: ReadState, bytes: Seq<u8>) -> Result<(ReadState, nat), ReadError>
    decreases bytes.len(),
{
    if bytes.len() == 0 || paused(s) {
        Ok((s, 0))
    } else {
        match byte_step(s, bytes[0]) {
            Err(e) => Err(e),
            Ok(t) => match fed_bytes(t, bytes.drop_first()) {
                Ok((u, k)) => Ok((u, k + 1)),
                Err(e) => Err(e),
            },
        }
    }
}

/// Feeding bytes of a UTF-16 file, two per code unit; an odd byte waits for
/// its partner.
pub open spec fn fed_units(s: ReadState, bytes: Seq<u8>) -> (ReadState, nat)
    decreases bytes.len(),
{
    if bytes.len() == 0 || paused(s) {
        (s, 0)
    } else {
        match s.pending_utf16_byte {
            Some(p) => {
                let (u, k) = fed_units(
                    unit_step(ReadState { pending_utf16_byte: None, ..s }, p, bytes[0]),
                    bytes.drop_first(),
                );
                (u, k + 1)
            },
            None => if bytes.len() == 1 {
                (ReadState { pending_utf16_byte: Some(bytes[0]), ..s }, 1)
            } else {
                let (u, k) = fed_units(unit_step(s, bytes[0], bytes[1]), bytes.skip(2));
                (u, k + 2)
            },
        }
    }
}

/// Feeding bytes in the reader's encoding.
pub open spec fn fed(s: ReadState, bytes: Seq<u8>) -> Result<(ReadState, nat), ReadError> {
    if s.encoding == LineEncoding::ByteOriented {
        fed_bytes(s, bytes)
    } else {
        Ok(fed_units(s, bytes))
    }
}

/// The text without a leading byte-order mark.
pub open spec fn strip_bom_char(d: Seq<char>) -> Seq<char> {
    if d.len() > 0 && d[0] == '\u{feff}' {
        d.drop_first()
    } else {
        d
    }
}

/// The text without a final carriage return.
pub open spec fn strip_cr(d: Seq<char>) -> Seq<char> {
    if d.len() > 0 && d.last() == '\r' {
        d.drop_last()
    } else {
        d
    }
}

/// The prefix of a page entry: the line number, a colon and a space.
pub open spec fn line_prefix(n: usize) -> Seq<char> {
    decimal(n as nat) + ": "@
}

/// The state after the decoded line `text` is added to the page: its entry
/// in full when it fits, else cut with the truncation marker (which ends the
/// page), or nothing but the end of the page when not even the prefix fits.
pub open spec fn with_line(s: ReadState, text: Seq<char>) -> ReadState {
    let d = utf8(text);
    let prefix = utf8(line_prefix(s.line_number));
    let available = if MAX_RESULT_BYTES >= s.content.len() {
        MAX_RESULT_BYTES - s.content.len()
    } else {
        0
    };
    if available <= prefix.len() {
        ReadState { output_truncated: true, ..s }
    } else {
        let budget = available - prefix.len();
        if s.current_line_truncated || d.len() + 1 > budget {
            ReadState {
                content: s.content + prefix + truncated_entry(d, budget),
                output_truncated: true,
                returned_lines: (s.returned_lines + 1) as usize,
                ..s
            }
        } else {
            ReadState {
                content: s.content + prefix + d + seq![10u8],
                returned_lines: (s.returned_lines + 1) as usize,
                ..s
            }
        }
    }
}

/// The state after the pending line's decoded text is taken, or the error
/// when the decoder reported binary data.
pub open spec fn accepted(s: ReadState, decoded: Seq<char>) -> Result<ReadState, ReadError> {
    if starts_with_seq(decoded, "[Binary output:"@) {
        Err(ReadError::Binary)
    } else {
        Ok(next_line(with_line(s, strip_cr(strip_bom_char(decoded)))))
    }
}

/// The state at the end of the file.
pub open spec fn finished(s: ReadState) -> Result<ReadState, ReadError> {
    if s.pending_utf16_byte is Some {
        Err(ReadError::IncompleteUtf16)
    } else {
        let t = if s.current_line_has_data {
            line_finished(s)
        } else {
            s
        };
        Ok(ReadState { reached_eof: true, ..t })
    }
}

/// The reader's invariant: a line number from one, bounded buffers, a page
/// of at most 32 KiB and at most `limit` lines, and a pending line only
/// where one belongs to the page.
pub open spec fn read_wf(s: ReadState) -> bool {
    &&& s.line_number >= 1
    &&& s.current_line.len() <= MAX_CAPTURED_LINE_BYTES
    &&& s.content.len() <= MAX_RESULT_BYTES
    &&& s.returned_lines <= s.limit
    &&& s.pending_line is Some ==> should_capture(s) && s.current_line.len() == 0
}

proof fn lemma_captured_wf(s: ReadState, b: Seq<u8>)
    requires
        read_wf(s),
        s.pending_line is None,
    ensures
        read_wf(captured(s, b)),
        captured(s, b).pending_line == s.pending_line,
        captured(s, b).done == s.done,
        captured(s, b).pending_utf16_byte == s.pending_utf16_byte,
        captured(s, b).encoding == s.encoding,
{
}

proof fn lemma_line_finished_wf(s: ReadState)
    requires
        read_wf(s),
    ensures
        read_wf(line_finished(s)),
        line_finished(s).done == s.done,
        line_finished(s).encoding == s.encoding,
        line_finished(s).pending_utf16_byte == s.pending_utf16_byte,
{
}

proof fn lemma_byte_step_wf(s: ReadState, b: u8)
    requires
        read_wf(s),
        !paused(s),
    ensures
        byte_step(s, b) matches Ok(t) ==> read_wf(t) && t.encoding == s.encoding,
{
    if !waiting(s) && !(s.sample_bytes < BINARY_SAMPLE_BYTES && b == 0) {
        let s1 = if s.sample_bytes < BINARY_SAMPLE_BYTES {
            ReadState { sample_bytes: (s.sample_bytes + 1) as usize, ..s }
        } else {
            s
        };
        lemma_line_finished_wf(s1);
        lemma_captured_wf(ReadState { current_line_has_data: true, ..s1 }, seq![b]);
    }
}

proof fn lemma_unit_step_wf(s: ReadState, a: u8, b: u8)
    requires
        read_wf(s),
        !paused(s),
    ensures
        read_wf(unit_step(s, a, b)),
        unit_step(s, a, b).encoding == s.encoding,
        unit_step(s, a, b).pending_utf16_byte == s.pending_utf16_byte,
{
    lemma_line_finished_wf(s);
    lemma_captured_wf(ReadState { current_line_has_data: true, ..s }, seq![a, b]);
}

/// Law: feeding bytes keeps the reader's invariant, so the page never holds
/// more than 32 KiB of text or more lines than its limit.
pub proof fn lemma_feeding_keeps_invariant(s: ReadState, bytes: Seq<u8>)
    requires
        read_wf(s),
    ensures
        fed(s, bytes) matches Ok((t, k)) ==> read_wf(t) && k <= bytes.len() && t.encoding
            == s.encoding,
{
    if s.encoding == LineEncoding::ByteOriented {
        lemma_fed_bytes_wf(s, bytes);
    } else {
        lemma_fed_units_wf(s, bytes);
    }
}

proof fn lemma_fed_bytes_wf(s: ReadState, bytes: Seq<u8>)
    requires
        read_wf(s),
    ensures
        fed_bytes(s, bytes) matches Ok((t, k)) ==> read_wf(t) && k <= bytes.len() && t.encoding
            == s.encoding,
    decreases bytes.len(),
{
    if bytes.len() > 0 && !paused(s) {
        lemma_byte_step_wf(s, bytes[0]);
        if let Ok(t) = byte_step(s, bytes[0]) {
            lemma_fed_bytes_wf(t, bytes.drop_first());
        }
    }
}

proof fn lemma_fed_units_wf(s: ReadState, bytes: Seq<u8>)
    requires
        read_wf(s),
    ensures
        read_wf(fed_units(s, bytes).0),
        fed_units(s, bytes).1 <= bytes.len(),
        fed_units(s, bytes).0.encoding == s.encoding,
    decreases bytes.len(),
{
    if bytes.len() > 0 && !paused(s) {
        match s.pending_utf16_byte {
            Some(p) => {
                let s0 = ReadState { pending_utf16_byte: None, ..s };
                lemma_unit_step_wf(s0, p, bytes[0]);
                lemma_fed_units_wf(unit_step(s0, p, bytes[0]), bytes.drop_first());
            },
            None => {
                if bytes.len() > 1 {
                    lemma_unit_step_wf(s, bytes[0], bytes[1]);
                    lemma_fed_units_wf(unit_step(s, bytes[0], bytes[1]), bytes.skip(2));
                }
            },
        }
    }
}

/// Feeding `a` and then, where all of `a` was taken, `b`: the state and the
/// bytes consumed in all, or the error.
pub open spec fn fed_in_two(s: ReadState, a: Seq<u8>, b: Seq<u8>) -> Result<(ReadState, nat), ReadError> {
    match fed(s, a) {
        Err(e) => Err(e),
        Ok((t, k)) => if k == a.len() {
            match fed(t, b) {
                Ok((u, j)) => Ok((u, k + j)),
                Err(e) => Err(e),
            }
        } else {
            Ok((t, k))
        },
    }
}

proof fn lemma_bytes_in_two(s: ReadState, a: Seq<u8>, b: Seq<u8>)
    ensures
        fed_bytes(s, a + b) == match fed_bytes(s, a) {
            Err(e) => Err(e),
            Ok((t, k)) => if k == a.len() {
                match fed_bytes(t, b) {
                    Ok((u, j)) => Ok((u, k + j)),
                    Err(e) => Err(e),
                }
            } else {
                Ok((t, k))
            },
        },
        fed_bytes(s, a) matches Ok((t, _)) ==> t.encoding == s.encoding,
    decreases a.len(),
{
    if a.len() == 0 {
        assert(a + b =~= b);
    } else if !paused(s) {
        assert((a + b)[0] == a[0]);
        assert((a + b).drop_first() =~= a.drop_first() + b);
        if let Ok(t) = byte_step(s, a[0]) {
            lemma_bytes_in_two(t, a.drop_first(), b);
        }
    }
}

proof fn lemma_units_in_two(s: ReadState, a: Seq<u8>, b: Seq<u8>)
    ensures
        fed_units(s, a + b) == ({
            let (t, k) = fed_units(s, a);
            if k == a.len() {
                let (u, j) = fed_units(t, b);
                (u, k + j)
            } else {
                (t, k)
            }
        }),
        fed_units(s, a).0.encoding == s.encoding,
    decreases a.len(),
{
    if a.len() == 0 {
        assert(a + b =~= b);
    } else if !paused(s) {
        let ab = a + b;
        assert(ab[0] == a[0]);
        match s.pending_utf16_byte {
            Some(p) => {
                assert(ab.drop_first() =~= a.drop_first() + b);
                lemma_units_in_two(
                    unit_step(ReadState { pending_utf16_byte: None, ..s }, p, a[0]),
                    a.drop_first(),
                    b,
                );
            },
            None => {
                if a.len() >= 2 {
                    assert(ab[1] == a[1]);
                    assert(ab.skip(2) =~= a.skip(2) + b);
                    lemma_units_in_two(unit_step(s, a[0], a[1]), a.skip(2), b);
                } else if b.len() > 0 {
                    let held = ReadState { pending_utf16_byte: Some(a[0]), ..s };
                    assert(ab[1] == b[0]);
                    assert(ab.skip(2) =~= b.drop_first());
                    assert(ReadState { pending_utf16_byte: None, ..held } == s);
                } else {
                    assert(ab =~= a);
                }
            },
        }
    }
}

/// Law: feeding bytes in two chunks, going on with the second only when the
/// first was taken whole, reaches the same state, consumes the same bytes and
/// fails in the same way as feeding them at once. Applied chunk by chunk,
/// any split of the input gives the same page as one feed.
pub proof fn lemma_feeding_in_chunks(s: ReadState, a: Seq<u8>, b: Seq<u8>)
    ensures
        fed(s, a + b) == fed_in_two(s, a, b),
{
    if s.encoding == LineEncoding::ByteOriented {
        lemma_bytes_in_two(s, a, b);
    } else {
        lemma_units_in_two(s, a, b);
    }
}

/// Law: taking a decoded line keeps the reader's invariant.
pub proof fn lemma_accepting_keeps_invariant(s: ReadState, decoded: Seq<char>)
    requires
        read_wf(s),
        s.pending_line is Some,
    ensures
        accepted(s, decoded) matches Ok(t) ==> read_wf(t) && t.pending_line is None,
{
    let text = strip_cr(strip_bom_char(decoded));
    let d = utf8(text);
    let prefix = utf8(line_prefix(s.line_number));
    let available = if MAX_RESULT_BYTES >= s.content.len() {
        MAX_RESULT_BYTES - s.content.len()
    } else {
        0
    };
    if available > prefix.len() {
        let budget = available - prefix.len();
        encode_utf8_valid_utf8(text);
        lemma_truncated_entry_fits(d, budget);
    }
}

/// Law: the end of the file keeps the reader's invariant.
pub proof fn lemma_finishing_keeps_invariant(s: ReadState)
    requires
        read_wf(s),
    ensures
        finished(s) matches Ok(t) ==> read_wf(t),
{
    lemma_line_finished_wf(s);
}

/// Whether `s` begins with `prefix` (compared by characters).
pub fn str_starts_with(s: &str, prefix: &str) -> (r: bool)
    ensures
        r == starts_with_seq(s@, prefix@),
{
    let a = chars_of(s);
    let b = chars_of(prefix);
    if b.len() > a.len() {
        return false;
    }
    let n = b.len();
    for i in 0..n
        invariant
            n == b@.len(),
            n <= a@.len(),
            a@ == s@,
            b@ == prefix@,
            forall|j: int| 0 <= j < i ==> a@[j] == b@[j],
    {
        if a[i] != b[i] {
            assert(a@.subrange(0, n as int)[i as int] != b@[i as int]);
            return false;
        }
    }
    assert(a@.subrange(0, n as int) =~= b@);
    true
}

/// Reads one page of a file streamed in chunks.
pub struct StreamingReadFormatter {
    pub offset: usize,
    pub limit: usize,
    pub encoding: LineEncoding,
    pub line_number: usize,
    pub current_line: Vec<u8>,
    pub current_line_has_data: bool,
    pub current_line_truncated: bool,
    pub pending_utf16_byte: Option<u8>,
    pub sample_bytes: usize,
    pub content: String,
    pub returned_lines: usize,
    pub output_truncated: bool,
    pub has_more_lines: bool,
    pub reached_eof: bool,
    pub done: bool,
    /// The bytes of a page line that wait to be decoded.
    pub pending_line: Option<Vec<u8>>,
}

/// The bytes of an optional buffer.
pub open spec fn opt_bytes_view(v: Option<Vec<u8>>) -> Option<Seq<u8>> {
    match v {
        Some(b) => Some(b@),
        None => None,
    }
}

impl View for StreamingReadFormatter {
    type V = ReadState;

    open spec fn view(&self) -> ReadState {
        ReadState {
            offset: self.offset,
            limit: self.limit,
            encoding: self.encoding,
            line_number: self.line_number,
            current_line: self.current_line@,
            current_line_has_data: self.current_line_has_data,
            current_line_truncated: self.current_line_truncated,
            pending_utf16_byte: self.pending_utf16_byte,
            sample_bytes: self.sample_bytes,
            content: utf8(self.content@),
            returned_lines: self.returned_lines,
            output_truncated: self.output_truncated,
            has_more_lines: self.has_more_lines,
            reached_eof: self.reached_eof,
            done: self.done,
            pending_line: opt_bytes_view(self.pending_line),
        }
    }
}

/// The state of a new reader.
pub open spec fn initial_state(offset: usize, limit: usize, encoding: LineEncoding) -> ReadState {
    ReadState {
        offset,
        limit,
        encoding,
        line_number: 1,
        current_line: Seq::empty(),
        current_line_has_data: false,
        current_line_truncated: false,
        pending_utf16_byte: None,
        sample_bytes: 0,
        content: Seq::empty(),
        returned_lines: 0,
        output_truncated: false,
        has_more_lines: false,
        reached_eof: false,
        done: false,
        pending_line: None,
    }
}

/// A feeding result with `i` more bytes counted as consumed.
pub open spec fn shifted(r: Result<(ReadState, nat), ReadError>, i: nat) -> Result<(ReadState, nat), ReadError> {
    match r {
        Ok((t, k)) => Ok((t, k + i)),
        Err(e) => Err(e),
    }
}

impl StreamingReadFormatter {
    /// A reader for the page of `limit` lines from line `offset`.
    pub fn new(offset: usize, limit: usize, encoding: LineEncoding) -> (r: Self)
        ensures
            r@ == initial_state(offset, limit, encoding),
            read_wf(r@),
    {
        let r = StreamingReadFormatter {
            offset,
            limit,
            encoding,
            line_number: 1,
            current_line: Vec::new(),
            current_line_has_data: false,
            current_line_truncated: false,
            pending_utf16_byte: None,
            sample_bytes: 0,
            content: String::new(),
            returned_lines: 0,
            output_truncated: false,
            has_more_lines: false,
            reached_eof: false,
            done: false,
            pending_line: None,
        };
        assert(utf8(r.content@) =~= Seq::<u8>::empty());
        assert(r@ =~= initial_state(offset, limit, encoding));
        r
    }

    /// Whether the current line belongs to the page.
    pub fn should_capture_current_line(&self) -> (r: bool)
        ensures
            r == should_capture(self@),
    {
        self.line_number >= self.offset && self.returned_lines < self.limit && !self.output_truncated
    }

    /// Whether the page is complete.
    pub fn waiting_to_confirm_more_lines(&self) -> (r: bool)
        ensures
            r == waiting(self@),
    {
        self.returned_lines >= self.limit || self.output_truncated
    }

    /// Keeps the bytes of the current line, up to the per-line cap.
    pub fn capture_bytes(&mut self, bytes: &[u8])
        ensures
            final(self)@ == captured(old(self)@, bytes@),
    {
        if !self.should_capture_current_line() {
            return;
        }
        let len = self.current_line.len();
        let remaining = if MAX_CAPTURED_LINE_BYTES >= len {
            MAX_CAPTURED_LINE_BYTES - len
        } else {
            0
        };
        let kept = if bytes.len() <= remaining {
            bytes.len()
        } else {
            remaining
        };
        push_bytes(&mut self.current_line, bytes, kept);
        self.current_line_truncated = self.current_line_truncated || bytes.len() > remaining;
        assert(self@ =~= captured(old(self)@, bytes@));
    }

    /// Ends the current line: a page line is set aside for decoding, any
    /// other line is skipped.
    pub fn finish_line(&mut self)
        requires
            old(self).pending_line is None,
        ensures
            final(self)@ == line_finished(old(self)@),
    {
        if self.should_capture_current_line() {
            let mut raw: Vec<u8> = Vec::new();
            std::mem::swap(&mut raw, &mut self.current_line);
            let mut encoded = self.encoding.bom();
            encoded.append(&mut raw);
            let byte_oriented = match self.encoding {
                LineEncoding::ByteOriented => true,
                _ => false,
            };
            if self.current_line_truncated && byte_oriented {
                trim_incomplete_utf8_tail(&mut encoded);
            }
            self.pending_line = Some(encoded);
            assert(self@ =~= line_finished(old(self)@));
        } else {
            self.current_line.clear();
            self.current_line_has_data = false;
            self.current_line_truncated = false;
            if self.line_number < usize::MAX {
                self.line_number = self.line_number + 1;
            }
            assert(self@ =~= line_finished(old(self)@));
        }
    }

    fn feed_one_byte(&mut self, byte: u8) -> (r: Result<(), ReadError>)
        requires
            !paused(old(self)@),
        ensures
            match r {
                Ok(()) => byte_step(old(self)@, byte) == Ok::<ReadState, ReadError>(final(self)@),
                Err(e) => byte_step(old(self)@, byte) == Err::<ReadState, ReadError>(e),
            },
    {
        if self.waiting_to_confirm_more_lines() {
            self.has_more_lines = true;
            self.done = true;
            assert(self@ =~= stopped(old(self)@));
            return Ok(());
        }
        if self.sample_bytes < BINARY_SAMPLE_BYTES {
            if byte == 0 {
                return Err(ReadError::Binary);
            }
            self.sample_bytes = self.sample_bytes + 1;
        }
        if byte == 10 {
            self.finish_line();
        } else {
            self.current_line_has_data = true;
            let one = [byte];
            self.capture_bytes(&one);
            assert(one@ =~= seq![byte]);
        }
        Ok(())
    }

    /// Feeds bytes of a byte-oriented file until they run out or the reader
    /// pauses; returns how many were consumed.
    pub fn feed_byte_oriented(&mut self, bytes: &[u8]) -> (r: Result<usize, ReadError>)
        ensures
            match r {
                Ok(k) => fed_bytes(old(self)@, bytes@) == Ok::<(ReadState, nat), ReadError>(
                    (final(self)@, k as nat),
                ),
                Err(e) => fed_bytes(old(self)@, bytes@) == Err::<(ReadState, nat), ReadError>(e),
            },
    {
        let n = bytes.len();
        let mut i: usize = 0;
        assert(bytes@.skip(0) =~= bytes@);
        while i < n && !self.done && self.pending_line.is_none()
            invariant
                i <= n,
                n == bytes@.len(),
                fed_bytes(old(self)@, bytes@) == shifted(fed_bytes(self@, bytes@.skip(i as int)), i as nat),
            decreases n - i,
        {
            let ghost before = self@;
            let ghost rest = bytes@.skip(i as int);
            let step = self.feed_one_byte(bytes[i]);
            assert(rest.drop_first() =~= bytes@.skip(i + 1));
            match step {
                Err(e) => {
                    return Err(e);
                },
                Ok(()) => {},
            }
            i = i + 1;
        }
        Ok(i)
    }

    /// Feeds one UTF-16 code unit.
    pub fn feed_utf16_unit(&mut self, a: u8, b: u8)
        requires
            !paused(old(self)@),
            old(self).encoding != LineEncoding::ByteOriented,
        ensures
            final(self)@ == unit_step(old(self)@, a, b),
    {
        if self.waiting_to_confirm_more_lines() {
            self.has_more_lines = true;
            self.done = true;
            assert(self@ =~= stopped(old(self)@));
            return;
        }
        let unit: u16 = match self.encoding {
            LineEncoding::Utf16Le => (a as u16) + (b as u16) * 256,
            _ => (a as u16) * 256 + (b as u16),
        };
        if unit == 10 {
            self.finish_line();
        } else {
            self.current_line_has_data = true;
            let pair = [a, b];
            self.capture_bytes(&pair);
            assert(pair@ =~= seq![a, b]);
        }
    }

    /// Feeds bytes of a UTF-16 file until they run out or the reader pauses;
    /// returns how many were consumed.
    pub fn feed_utf16(&mut self, bytes: &[u8]) -> (r: usize)
        requires
            old(self).encoding != LineEncoding::ByteOriented,
        ensures
            fed_units(old(self)@, bytes@) == (final(self)@, r as nat),
    {
        let n = bytes.len();
        let mut i: usize = 0;
        assert(bytes@.skip(0) =~= bytes@);
        while i < n && !self.done && self.pending_line.is_none()
            invariant
                i <= n,
                n == bytes@.len(),
                self.encoding == old(self).encoding,
                self.encoding != LineEncoding::ByteOriented,
                fed_units(old(self)@, bytes@) == ({
                    let (t, k) = fed_units(self@, bytes@.skip(i as int));
                    (t, (k + i) as nat)
                }),
            decreases n - i,
        {
            let ghost rest = bytes@.skip(i as int);
            match self.pending_utf16_byte {
                Some(p) => {
                    self.pending_utf16_byte = None;
                    self.feed_utf16_unit(p, bytes[i]);
                    assert(rest.drop_first() =~= bytes@.skip(i + 1));
                    i = i + 1;
                },
                None => {
                    if i + 1 < n {
                        self.feed_utf16_unit(bytes[i], bytes[i + 1]);
                        assert(rest.skip(2) =~= bytes@.skip(i + 2));
                        i = i + 2;
                    } else {
                        self.pending_utf16_byte = Some(bytes[i]);
                        assert(bytes@.skip(i + 1).len() == 0);
                        i = i + 1;
                    }
                },
            }
        }
        i
    }

    /// Feeds bytes in the reader's encoding until they run out or the reader
    /// pauses (done, or with a line to decode); returns how many bytes were
    /// consumed.
    pub fn feed(&mut self, bytes: &[u8]) -> (r: Result<usize, ReadError>)
        ensures
            match r {
                Ok(k) => fed(old(self)@, bytes@) == Ok::<(ReadState, nat), ReadError>(
                    (final(self)@, k as nat),
                ),
                Err(e) => fed(old(self)@, bytes@) == Err::<(ReadState, nat), ReadError>(e),
            },
    {
        match self.encoding {
            LineEncoding::ByteOriented => self.feed_byte_oriented(bytes),
            _ => Ok(self.feed_utf16(bytes)),
        }
    }
}

/// Appends the first `n` bytes of `src`.
fn push_bytes(out: &mut Vec<u8>, src: &[u8], n: usize)
    requires
        n <= src@.len(),
    ensures
        final(out)@ == old(out)@ + src@.take(n as int),
{
    crate::text::push_range(out, src, 0, n);
    assert(src@.take(n as int) =~= src@.subrange(0, n as int));
}

/// The chars of `v` from `start` to `end`.
fn chars_between(v: &Vec<char>, start: usize, end: usize) -> (r: Vec<char>)
    requires
        start <= end <= v@.len(),
    ensures
        r@ == v@.subrange(start as int, end as int),
{
    let mut r: Vec<char> = Vec::new();
    let mut i = start;
    while i < end
        invariant
            start <= i <= end <= v@.len(),
            r@ == v@.subrange(start as int, i as int),
        decreases end - i,
    {
        r.push(v[i]);
        assert(v@.subrange(start as int, i + 1) =~= v@.subrange(start as int, i as int).push(v@[i as int]));
        i = i + 1;
    }
    r
}

/// The decoded line without a leading byte-order mark and a final carriage
/// return.
pub fn strip_line_marks(decoded: &str) -> (r: String)
    ensures
        r@ == strip_cr(strip_bom_char(decoded@)),
{
    let chars = chars_of(decoded);
    let n = chars.len();
    let start: usize = if n > 0 && chars[0] == '\u{feff}' {
        1
    } else {
        0
    };
    let end: usize = if n > start && chars[n - 1] == '\r' {
        n - 1
    } else {
        n
    };
    let kept = chars_between(&chars, start, end);
    proof {
        let d = decoded@;
        let b = strip_bom_char(d);
        if start == 1 {
            assert(b =~= d.subrange(1, n as int));
        } else {
            assert(b =~= d.subrange(0, n as int));
        }
        if end < n {
            assert(b.len() > 0 && b.last() == '\r');
            assert(strip_cr(b) =~= d.subrange(start as int, end as int));
        } else {
            assert(strip_cr(b) =~= d.subrange(start as int, end as int));
        }
    }
    string_from_chars(kept.as_slice())
}

impl StreamingReadFormatter {
    /// Takes the decoded text of the pending line: unless the decoder
    /// reported binary data, the line's entry is added to the page (cut to
    /// the remaining budget with a marker, which ends the page), and reading
    /// moves to the next line.
    pub fn append_line(&mut self, decoded: &str) -> (r: Result<(), ReadError>)
        requires
            old(self).pending_line is Some,
            read_wf(old(self)@),
        ensures
            match r {
                Ok(()) => accepted(old(self)@, decoded@) == Ok::<ReadState, ReadError>(final(self)@),
                Err(e) => accepted(old(self)@, decoded@) == Err::<ReadState, ReadError>(e),
            },
    {
        if str_starts_with(decoded, "[Binary output:") {
            return Err(ReadError::Binary);
        }
        let text = strip_line_marks(decoded);
        let ghost before = self@;
        let dlen = text.as_str().as_bytes().len();
        let mut prefix = decimal_string(self.line_number as u64);
        append_str(&mut prefix, ": ");
        let plen = prefix.as_str().as_bytes().len();
        let clen = self.content.as_str().as_bytes().len();
        let available = if MAX_RESULT_BYTES >= clen {
            MAX_RESULT_BYTES - clen
        } else {
            0
        };
        let ghost old_content = self.content@;
        if available <= plen {
            self.output_truncated = true;
        } else {
            append_str(&mut self.content, prefix.as_str());
            let budget = available - plen;
            if self.current_line_truncated || dlen >= budget {
                append_truncated_text(&mut self.content, text.as_str(), budget);
                self.output_truncated = true;
                proof {
                    lemma_encode_concat(old_content, prefix@);
                }
            } else {
                let ghost mid = self.content@;
                append_str(&mut self.content, text.as_str());
                append_str(&mut self.content, "\n");
                proof {
                    lemma_encode_concat(old_content, prefix@);
                    lemma_encode_concat(mid, text@);
                    lemma_encode_concat(mid + text@, "\n"@);
                    crate::text::lemma_newline_utf8();
                }
            }
            self.returned_lines = self.returned_lines + 1;
        }
        self.pending_line = None;
        self.current_line_has_data = false;
        self.current_line_truncated = false;
        if self.line_number < usize::MAX {
            self.line_number = self.line_number + 1;
        }
        proof {
            assert(prefix@ == line_prefix(before.line_number));
            assert(self.current_line@ =~= Seq::<u8>::empty());
            let w = with_line(before, text@);
            assert(self.content@.len() >= 0);
            assert(utf8(self.content@) == w.content);
            assert(self.output_truncated == w.output_truncated);
            assert(self.returned_lines == w.returned_lines);
        }
        assert(self@ =~= next_line(with_line(before, text@)));
        Ok(())
    }
}

/// How an adaptive read changed the requested page size.
#[derive(Clone, Debug)]
pub struct ReadOptimization {
    pub requested_limit: usize,
    pub effective_limit: usize,
    pub reason: String,
}

/// One page of a file.
#[derive(Clone, Debug)]
pub struct ReadFileResult {
    pub path: String,
    pub start_line: usize,
    pub end_line: usize,
    pub content: String,
    pub truncated: bool,
    pub next_offset: Option<usize>,
    pub read_optimization: Option<ReadOptimization>,
}

/// Why a page cannot be produced.
#[derive(Clone, Copy, Debug, PartialEq, Eq)]
pub enum ReadResultError {
    /// The requested offset lies beyond the file's last line.
    OffsetPastEnd { line_count: usize },
}

/// The page's last line number.
pub open spec fn end_line_of(s: ReadState) -> int {
    s.offset - 1 + s.returned_lines
}

/// Lines exist after the page.
pub open spec fn more_lines(s: ReadState) -> bool {
    s.has_more_lines || end_line_of(s) < s.line_number - 1
}

/// The requested offset lies beyond the end of a file that has been read
/// through (an empty file read from line one is no such case).
pub open spec fn offset_past_end(s: ReadState) -> bool {
    let line_count = s.line_number - 1;
    &&& s.reached_eof
    &&& s.offset > line_count
    &&& !(line_count == 0 && s.offset == 1)
}

impl StreamingReadFormatter {
    /// Ends the file: an incomplete UTF-16 code unit is an error; a last
    /// line without a line feed is ended.
    pub fn finish(&mut self) -> (r: Result<(), ReadError>)
        requires
            old(self).pending_line is None,
        ensures
            match r {
                Ok(()) => finished(old(self)@) == Ok::<ReadState, ReadError>(final(self)@),
                Err(e) => finished(old(self)@) == Err::<ReadState, ReadError>(e),
            },
    {
        if self.pending_utf16_byte.is_some() {
            return Err(ReadError::IncompleteUtf16);
        }
        if self.current_line_has_data {
            self.finish_line();
        }
        self.reached_eof = true;
        Ok(())
    }

    /// The page: its first and last line numbers, its text, whether more
    /// lines exist or the text was cut, and where the next page starts; or
    /// the error when the offset lies past the end of the file.
    pub fn into_result(self, path: String) -> (r: Result<ReadFileResult, ReadResultError>)
        requires
            self.offset >= 1,
            read_wf(self@),
            end_line_of(self@) <= usize::MAX,
        ensures
            r is Err <==> offset_past_end(self@),
            r matches Err(ReadResultError::OffsetPastEnd { line_count }) ==> line_count == self.line_number - 1,
            r matches Ok(page) ==> {
                &&& page.path == path
                &&& page.start_line == self.offset
                &&& page.end_line == end_line_of(self@)
                &&& page.content == self.content
                &&& page.truncated == (more_lines(self@) || self.output_truncated)
                &&& page.next_offset == if more_lines(self@) {
                    Some(sat_inc(page.end_line))
                } else {
                    None
                }
                &&& page.read_optimization is None
            },
    {
        let line_count = self.line_number - 1;
        let empty_file_at_start = self.reached_eof && line_count == 0 && self.offset == 1;
        if self.reached_eof && self.offset > line_count && !empty_file_at_start {
            return Err(ReadResultError::OffsetPastEnd { line_count });
        }
        let end_line = self.offset - 1 + self.returned_lines;
        let has_more_lines = self.has_more_lines || end_line < line_count;
        let truncated = has_more_lines || self.output_truncated;
        let next_offset = if has_more_lines {
            Some(
                if end_line < usize::MAX {
                    end_line + 1
                } else {
                    end_line
                },
            )
        } else {
            None
        };
        Ok(
            ReadFileResult {
                path,
                start_line: self.offset,
                end_line,
                content: self.content,
                truncated,
                next_offset,
                read_optimization: None,
            },
        )
    }
}

/// The message that reports an offset past the end of the file.
pub fn offset_past_end_message(offset: usize, line_count: usize) -> (r: String)
    ensures
        r@ == "read_file.offset "@ + decimal(offset as nat) + " exceeds the file's "@ + decimal(
            line_count as nat,
        ) + " lines"@,
{
    let mut r = "read_file.offset ".to_owned();
    append_str(&mut r, decimal_string(offset as u64).as_str());
    append_str(&mut r, " exceeds the file's ");
    append_str(&mut r, decimal_string(line_count as u64).as_str());
    append_str(&mut r, " lines");
    r
}

/// The arguments of a `read_file` call.
#[derive(Clone, Debug)]
pub struct ReadFileArgs {
    pub file_path: String,
    pub offset: Option<usize>,
    pub limit: Option<usize>,
}

/// The first line requested: the offset, or line one.
pub open spec fn offset_or_default(args: ReadFileArgs) -> usize {
    match args.offset {
        Some(o) => o,
        None => 1,
    }
}

/// The page size requested: the limit, or the default.
pub open spec fn limit_or_default(args: ReadFileArgs) -> usize {
    match args.limit {
        Some(l) => l,
        None => DEFAULT_READ_LINES,
    }
}

impl ReadFileArgs {
    /// The first line requested.
    pub fn offset(&self) -> (r: usize)
        ensures
            r == offset_or_default(*self),
    {
        match self.offset {
            Some(o) => o,
            None => 1,
        }
    }

    /// The page size requested.
    pub fn limit(&self) -> (r: usize)
        ensures
            r == limit_or_default(*self),
    {
        match self.limit {
            Some(l) => l,
            None => DEFAULT_READ_LINES,
        }
    }
}

/// Checks the paging arguments of a read: the offset is at least one and the
/// limit between one and 1000. Returns the offset and limit to use.
pub fn validate_read_window(offset: Option<usize>, limit: Option<usize>) -> (r: Result<(usize, usize), String>)
    ensures
        ({
            let o = match offset {
                Some(o) => o,
                None => 1usize,
            };
            let l = match limit {
                Some(l) => l,
                None => DEFAULT_READ_LINES,
            };
            if o == 0 {
                r matches Err(m) && m@ == "read_file.offset must be at least 1"@
            } else if l == 0 || l > MAX_READ_LINES {
                r matches Err(m) && m@ == "read_file.limit must be between 1 and 1000"@
            } else {
                r == Ok::<(usize, usize), String>((o, l))
            }
        }),
{
    let o = match offset {
        Some(o) => o,
        None => 1,
    };
    if o == 0 {
        return Err("read_file.offset must be at least 1".to_owned());
    }
    let l = match limit {
        Some(l) => l,
        None => DEFAULT_READ_LINES,
    };
    if l == 0 || l > MAX_READ_LINES {
        return Err("read_file.limit must be between 1 and 1000".to_owned());
    }
    Ok((o, l))
}

impl ReadOptimization {
    /// A copy.
    pub fn duplicate(&self) -> (r: Self)
        ensures
            r == *self,
    {
        ReadOptimization {
            requested_limit: self.requested_limit,
            effective_limit: self.effective_limit,
            reason: self.reason.clone(),
        }
    }
}

impl ReadFileResult {
    /// A copy.
    pub fn duplicate(&self) -> (r: Self)
        ensures
            r == *self,
    {
        ReadFileResult {
            path: self.path.clone(),
            start_line: self.start_line,
            end_line: self.end_line,
            content: self.content.clone(),
            truncated: self.truncated,
            next_offset: self.next_offset,
            read_optimization: match &self.read_optimization {
                Some(o) => Some(o.duplicate()),
                None => None,
            },
        }
    }
}

impl ReadFileArgs {
    /// A copy.
    pub fn duplicate(&self) -> (r: Self)
        ensures
            r == *self,
    {
        ReadFileArgs { file_path: self.file_path.clone(), offset: self.offset, limit: self.limit }
    }
}

} // verus!
