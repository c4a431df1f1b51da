use codex_text_tools::file_read::{
    append_truncated_text, offset_past_end_message, strip_line_marks, trim_incomplete_utf8_tail,
    truncate_utf8, validate_read_window, LineEncoding, ReadError, ReadFileResult, ReadResultError,
    StreamingReadFormatter, DEFAULT_READ_LINES, MAX_CAPTURED_LINE_BYTES, MAX_RESULT_BYTES,
};

/// Decodes a captured line the way a smart decoder would for these inputs:
/// UTF-16 after its byte-order mark, else UTF-8.
fn decode(bytes: &[u8]) -> String {
    if bytes.starts_with(&[0xff, 0xfe]) {
        let units: Vec<u16> = bytes[2..]
            .chunks(2)
            .map(|c| u16::from_le_bytes([c[0], c[1]]))
            .collect();
        String::from_utf16_lossy(&units)
    } else if bytes.starts_with(&[0xfe, 0xff]) {
        let units: Vec<u16> = bytes[2..]
            .chunks(2)
            .map(|c| u16::from_be_bytes([c[0], c[1]]))
            .collect();
        String::from_utf16_lossy(&units)
    } else {
        String::from_utf8_lossy(bytes).into_owned()
    }
}

fn take_pending(formatter: &mut StreamingReadFormatter) -> Result<(), ReadError> {
    if let Some(line) = formatter.pending_line.clone() {
        formatter.append_line(&decode(&line))?;
    }
    Ok(())
}

/// Feeds a chunk, decoding each page line as it becomes ready; returns
/// whether the reader is done.
fn feed(formatter: &mut StreamingReadFormatter, mut bytes: &[u8]) -> Result<bool, ReadError> {
    loop {
        let consumed = formatter.feed(bytes)?;
        take_pending(formatter)?;
        bytes = &bytes[consumed..];
        if formatter.done || bytes.is_empty() {
            return Ok(formatter.done);
        }
    }
}

fn finish(formatter: &mut StreamingReadFormatter) -> Result<(), ReadError> {
    formatter.finish()?;
    take_pending(formatter)
}

fn format_bytes(bytes: &[u8], offset: usize, limit: usize) -> Result<ReadFileResult, ReadResultError> {
    let (encoding, bytes) = LineEncoding::detect(bytes);
    let mut formatter = StreamingReadFormatter::new(offset, limit, encoding);
    if !feed(&mut formatter, bytes).expect("feed bytes") {
        finish(&mut formatter).expect("finish stream");
    }
    formatter.into_result("file:///C:/repo/source.txt".to_string())
}

#[test]
fn next_offset_continues_after_a_line_larger_than_eight_mib() {
    let mut bytes = vec![b'x'; 8 * 1024 * 1024 + 1];
    bytes.extend_from_slice(b"\nsecond");

    let first = format_bytes(&bytes, 1, DEFAULT_READ_LINES).expect("format first page");
    assert_eq!(first.end_line, 1);
    assert_eq!(first.next_offset, Some(2));
    assert!(first.content.len() <= MAX_RESULT_BYTES);

    let second = format_bytes(&bytes, 2, 1).expect("format second page");
    assert_eq!(second.content, "2: second\n");
    assert_eq!(second.next_offset, None);
}

#[test]
fn a_single_truncated_line_does_not_claim_there_is_a_next_offset() {
    let bytes = vec![b'x'; MAX_CAPTURED_LINE_BYTES + 1];

    let output = format_bytes(&bytes, 1, 1).expect("format truncated line");

    assert_eq!(output.end_line, 1);
    assert!(output.truncated);
    assert_eq!(output.next_offset, None);
}

#[test]
fn offset_past_end_reports_requested_and_actual_line_counts() {
    let Err(ReadResultError::OffsetPastEnd { line_count }) = format_bytes(b"one\ntwo\n", 3, 1)
    else {
        panic!("offset past end should fail");
    };
    assert_eq!(line_count, 2);
}

#[test]
fn empty_file_at_first_offset_returns_an_empty_result() {
    let output = format_bytes(b"", 1, 1).expect("format empty file");
    assert_eq!(output.path, "file:///C:/repo/source.txt");
    assert_eq!(output.start_line, 1);
    assert_eq!(output.end_line, 0);
    assert_eq!(output.content, "");
    assert!(!output.truncated);
    assert_eq!(output.next_offset, None);
}

#[test]
fn read_result_pages_by_line() {
    let output = format_bytes(b"one\ntwo\nthree\n", 2, 1).expect("format page");
    assert_eq!(output.path, "file:///C:/repo/source.txt");
    assert_eq!(output.start_line, 2);
    assert_eq!(output.end_line, 2);
    assert_eq!(output.content, "2: two\n");
    assert!(output.truncated);
    assert_eq!(output.next_offset, Some(3));
}

#[test]
fn decoder_handles_split_utf16_units_and_rejects_binary_data() {
    let utf16 = [0xff, 0xfe, b'h', 0, b'i', 0, b'\n', 0];
    let (encoding, bytes) = LineEncoding::detect(&utf16);
    let mut formatter = StreamingReadFormatter::new(1, 1, encoding);
    for byte in bytes {
        feed(&mut formatter, &[*byte]).expect("feed UTF-16 byte");
    }
    finish(&mut formatter).expect("finish UTF-16 stream");
    let output = formatter
        .into_result("file:///C:/repo/utf16.txt".to_string())
        .expect("format UTF-16 result");
    assert_eq!(output.content, "1: hi\n");

    let (encoding, bytes) = LineEncoding::detect(&[0, 1, 2, 3]);
    let mut formatter = StreamingReadFormatter::new(1, 1, encoding);
    assert!(feed(&mut formatter, bytes).is_err());
}

#[test]
fn completed_page_stops_after_confirming_the_next_line() {
    let (encoding, bytes) = LineEncoding::detect(b"one\ntwo\nthree\n");
    let mut formatter = StreamingReadFormatter::new(1, 1, encoding);

    assert!(feed(&mut formatter, bytes).expect("feed page"));
    assert_eq!(formatter.line_number, 2);
    assert!(formatter.has_more_lines);
}

#[test]
fn feeding_pauses_with_the_page_line_pending() {
    let mut formatter = StreamingReadFormatter::new(1, 5, LineEncoding::ByteOriented);
    let consumed = formatter.feed(b"ab\ncd\n").expect("feed");
    assert_eq!(consumed, 3);
    assert_eq!(formatter.pending_line.as_deref(), Some(&b"ab"[..]));
    formatter.append_line("ab").expect("append");
    assert_eq!(formatter.content, "1: ab\n");
    assert_eq!(formatter.line_number, 2);
}

#[test]
fn big_endian_utf16_and_line_marks_are_handled() {
    let bytes = [0xfe, 0xff, 0, b'o', 0, b'k', 0, b'\r', 0, b'\n'];
    let output = format_bytes(&bytes, 1, 5).expect("format");
    assert_eq!(output.content, "1: ok\n");
    assert!(!output.truncated);

    let crlf = format_bytes("\u{feff}first\r\nsecond\r\n".as_bytes(), 1, 5).expect("format");
    assert_eq!(crlf.content, "1: first\n2: second\n");
}

#[test]
fn incomplete_utf16_unit_fails_at_the_end() {
    let (encoding, bytes) = LineEncoding::detect(&[0xff, 0xfe, b'a', 0, b'b']);
    let mut formatter = StreamingReadFormatter::new(1, 1, encoding);
    feed(&mut formatter, bytes).expect("feed");
    assert_eq!(formatter.finish(), Err(ReadError::IncompleteUtf16));
    assert_eq!(
        ReadError::IncompleteUtf16.message(),
        "UTF-16 file has an incomplete final code unit"
    );
}

#[test]
fn decoder_reporting_binary_fails_the_read() {
    let mut formatter = StreamingReadFormatter::new(1, 1, LineEncoding::ByteOriented);
    formatter.feed(b"abc\n").expect("feed");
    assert_eq!(
        formatter.append_line("[Binary output: 3 bytes]"),
        Err(ReadError::Binary)
    );
}

#[test]
fn page_text_stays_within_its_byte_limit() {
    let line = "y".repeat(1000);
    let mut text = String::new();
    for _ in 0..100 {
        text.push_str(&line);
        text.push('\n');
    }
    let output = format_bytes(text.as_bytes(), 1, 1000).expect("format");
    assert!(output.content.len() <= MAX_RESULT_BYTES);
    assert!(output.truncated);
    assert!(output.content.ends_with("…\n"));
    assert_eq!(output.next_offset, Some(output.end_line + 1));
}

#[test]
fn truncation_helpers_respect_character_boundaries() {
    assert_eq!(truncate_utf8("héllo", 2), "h");
    assert_eq!(truncate_utf8("héllo", 3), "hé");
    assert_eq!(truncate_utf8("abc", 10), "abc");
    let mut out = String::from(">");
    append_truncated_text(&mut out, "abcdef", 6);
    assert_eq!(out, ">ab…\n");
    let mut short = String::new();
    append_truncated_text(&mut short, "abcdef", 3);
    assert_eq!(short, "abc");
    let mut bytes = "ok中".as_bytes().to_vec();
    bytes.pop();
    trim_incomplete_utf8_tail(&mut bytes);
    assert_eq!(bytes, b"ok");
    let mut invalid = vec![b'a', 0xff, b'b'];
    trim_incomplete_utf8_tail(&mut invalid);
    assert_eq!(invalid, vec![b'a', 0xff, b'b']);
    assert_eq!(strip_line_marks("\u{feff}x\r"), "x");
    assert_eq!(strip_line_marks("\r"), "");
}

#[test]
fn read_window_is_validated() {
    assert_eq!(validate_read_window(None, None), Ok((1, DEFAULT_READ_LINES)));
    assert_eq!(
        validate_read_window(Some(0), None),
        Err("read_file.offset must be at least 1".to_string())
    );
    assert_eq!(
        validate_read_window(Some(2), Some(1001)),
        Err("read_file.limit must be between 1 and 1000".to_string())
    );
    assert_eq!(
        offset_past_end_message(5, 2),
        "read_file.offset 5 exceeds the file's 2 lines"
    );
}

#[test]
fn feeding_line_by_line_yields_the_entries_of_the_requested_lines() {
    let lines: [&[u8]; 4] = [b"alpha", b"beta\r", b"\xef\xbb\xbfgamma", b"delta"];
    let mut formatter = StreamingReadFormatter::new(2, 2, LineEncoding::ByteOriented);
    for line in lines {
        if formatter.done {
            break;
        }
        let mut bytes = line.to_vec();
        bytes.push(b'\n');
        feed(&mut formatter, &bytes).expect("feed line");
    }
    assert_eq!(formatter.content, "2: beta\n3: gamma\n");
    assert_eq!(formatter.returned_lines, 2);
    assert!(formatter.has_more_lines);

    let mut short = StreamingReadFormatter::new(3, 5, LineEncoding::ByteOriented);
    for line in lines {
        let mut bytes = line.to_vec();
        bytes.push(b'\n');
        feed(&mut short, &bytes).expect("feed line");
    }
    finish(&mut short).expect("finish");
    assert_eq!(short.content, "3: gamma\n4: delta\n");
    assert_eq!(short.returned_lines, 2);
    assert!(!short.has_more_lines);
    assert!(short.reached_eof);
}

#[test]
fn feeding_byte_by_byte_matches_feeding_at_once() {
    let inputs: [&[u8]; 3] = [
        b"one\r\ntwo\nthree\nfour\n",
        b"\xff\xfeh\x00i\x00\n\x00y\x00o\x00\n\x00",
        b"\xef\xbb\xbfalpha\nbeta",
    ];
    for input in inputs {
        for (offset, limit) in [(1, 1), (2, 2), (1, 400)] {
            let whole = format_bytes(input, offset, limit).expect("whole");
            let (encoding, bytes) = LineEncoding::detect(input);
            let mut formatter = StreamingReadFormatter::new(offset, limit, encoding);
            let mut done = false;
            for byte in bytes {
                done = feed(&mut formatter, &[*byte]).expect("feed byte");
                if done {
                    break;
                }
            }
            if !done {
                finish(&mut formatter).expect("finish");
            }
            let split = formatter
                .into_result("file:///C:/repo/source.txt".to_string())
                .expect("split");
            assert_eq!(split.content, whole.content);
            assert_eq!(split.end_line, whole.end_line);
            assert_eq!(split.truncated, whole.truncated);
            assert_eq!(split.next_offset, whole.next_offset);
        }
    }
}
