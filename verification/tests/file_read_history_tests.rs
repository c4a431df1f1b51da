use codex_text_tools::file_read::{ReadFileArgs, ReadFileResult, ReadOptimization};
use codex_text_tools::file_read_history::{
    HistoryItem, ReadHistory, ReadHistoryOutput, ADAPTIVE_READ_LINES,
};

fn args(offset: usize, limit: usize) -> ReadFileArgs {
    ReadFileArgs {
        file_path: "src/main.rs".to_string(),
        offset: Some(offset),
        limit: Some(limit),
    }
}

fn result(start_line: usize, end_line: usize, content: &str) -> ReadFileResult {
    ReadFileResult {
        path: "file:///C:/repo/src/main.rs".to_string(),
        start_line,
        end_line,
        content: content.to_string(),
        truncated: true,
        next_offset: Some(end_line + 1),
        read_optimization: None,
    }
}

fn history(reads: Vec<(ReadFileArgs, ReadFileResult)>) -> ReadHistory {
    let items = reads
        .into_iter()
        .enumerate()
        .flat_map(|(index, (args, result))| {
            let call_id = format!("call-{index}");
            [
                HistoryItem::ReadCall {
                    call_id: call_id.clone(),
                    args: Some(args),
                },
                HistoryItem::CallOutput {
                    call_id,
                    result: Some(result),
                },
            ]
        })
        .collect::<Vec<_>>();
    ReadHistory::collect(&items)
}

#[test]
fn third_adjacent_small_read_expands() {
    let history = history(vec![
        (args(1, 20), result(1, 20, "1: first\n")),
        (args(21, 20), result(21, 40, "21: second\n")),
    ]);

    assert_eq!(history.effective_limit(&args(41, 20)), ADAPTIVE_READ_LINES);
}

#[test]
fn precise_or_non_adjacent_reads_stay_requested_size() {
    let one_read = history(vec![(args(1, 20), result(1, 20, "1: first\n"))]);
    assert_eq!(one_read.effective_limit(&args(21, 20)), 20);

    let non_adjacent = history(vec![
        (args(1, 20), result(1, 20, "1: first\n")),
        (args(40, 20), result(40, 59, "40: second\n")),
    ]);
    assert_eq!(non_adjacent.effective_limit(&args(60, 20)), 20);
    assert_eq!(non_adjacent.effective_limit(&args(60, 100)), 100);
}

#[test]
fn read_after_an_adaptive_page_remains_adaptive() {
    let mut adaptive = result(41, 240, "41: expanded\n");
    adaptive.read_optimization = Some(ReadOptimization {
        requested_limit: 20,
        effective_limit: ADAPTIVE_READ_LINES,
        reason: "expanded_after_consecutive_small_reads".to_string(),
    });
    let history = history(vec![(args(41, 20), adaptive)]);

    assert_eq!(history.effective_limit(&args(241, 20)), ADAPTIVE_READ_LINES);
}

#[test]
fn unchanged_covered_range_returns_a_small_reference() {
    let history = history(vec![(
        args(41, 200),
        result(41, 80, "41: one\n42: two\n43: three\n"),
    )]);
    let output = history.optimize_result(20, result(42, 43, "42: two\n43: three\n"));

    let ReadHistoryOutput::Unchanged(unchanged) = &output else {
        panic!("expected a short reference");
    };
    assert_eq!(unchanged.status, "file_unchanged");
    assert_eq!(unchanged.requested_start_line, 42);
    assert_eq!(unchanged.requested_end_line, 43);
    assert_eq!(unchanged.covered_start_line, 41);
    assert_eq!(unchanged.covered_end_line, 80);
    assert_eq!(unchanged.next_offset, Some(81));
    assert_eq!(
        output.diagnostic(),
        Some(("file.read.unchanged", "42: two\n43: three\n".len()))
    );
}

#[test]
fn changed_covered_range_returns_fresh_content() {
    let history = history(vec![(args(41, 20), result(41, 60, "42: old\n"))]);
    let fresh = result(42, 42, "42: new\n");

    assert!(matches!(
        history.optimize_result(1, fresh),
        ReadHistoryOutput::Full(_)
    ));
}

#[test]
fn small_request_that_got_more_lines_is_marked_expanded() {
    let history = history(vec![]);
    let output = history.optimize_result(20, result(1, 200, "1: x\n"));
    let ReadHistoryOutput::Full(page) = &output else {
        panic!("expected the page");
    };
    let optimization = page.read_optimization.as_ref().expect("expanded");
    assert_eq!(optimization.requested_limit, 20);
    assert_eq!(optimization.effective_limit, ADAPTIVE_READ_LINES);
    assert_eq!(optimization.reason, "expanded_after_consecutive_small_reads");
    assert_eq!(output.diagnostic(), Some(("file.read.auto_expanded", 5)));

    let plain = history.optimize_result(20, result(1, 20, "1: x\n"));
    assert_eq!(plain.diagnostic(), None);
}

#[test]
fn a_user_message_starts_a_new_turn_and_unmatched_outputs_are_ignored() {
    let items = vec![
        HistoryItem::ReadCall {
            call_id: "a".to_string(),
            args: Some(args(1, 20)),
        },
        HistoryItem::CallOutput {
            call_id: "a".to_string(),
            result: Some(result(1, 20, "1: x\n")),
        },
        HistoryItem::CallOutput {
            call_id: "unknown".to_string(),
            result: Some(result(1, 2, "1: y\n")),
        },
        HistoryItem::UserMessage,
        HistoryItem::ReadCall {
            call_id: "b".to_string(),
            args: Some(args(21, 20)),
        },
        HistoryItem::Other,
        HistoryItem::CallOutput {
            call_id: "b".to_string(),
            result: Some(result(21, 40, "21: z\n")),
        },
    ];
    let history = ReadHistory::collect(&items);
    assert_eq!(history.reads.len(), 2);
    assert_eq!(history.current_turn_start, 1);
    // Only one read in this turn: the request keeps its size.
    assert_eq!(history.effective_limit(&args(41, 20)), 20);
}
