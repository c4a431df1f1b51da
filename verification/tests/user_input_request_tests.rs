use codex_text_tools::user_input_request::{
    completion_status, handler_order, is_unhandled_stdout, parse_response, AnswerEntries, HandlerRunResult,
    HookCompletedEvent, HookRunStatus, RequestUserInputQuestion, UserInputRequestOutcome,
};

fn question(id: &str) -> RequestUserInputQuestion {
    RequestUserInputQuestion {
        id: id.to_string(),
        header: "Header".to_string(),
        question: "Question?".to_string(),
        is_other: true,
        is_secret: false,
    }
}

fn successful_run(stdout: &str) -> HandlerRunResult {
    HandlerRunResult {
        started_at: 1,
        completed_at: 2,
        duration_ms: 1,
        exit_code: Some(0),
        stdout: stdout.to_string(),
        stderr: String::new(),
        error: None,
    }
}

/// Reads the answer document `{"answers":{id:{"answers":[..]}}}` from the
/// trimmed output, as the hook output schema does.
fn answers_of(stdout: &str) -> Option<AnswerEntries> {
    let value: serde_json::Value = serde_json::from_str(stdout.trim()).ok()?;
    let answers = value.get("answers")?.as_object()?;
    let mut entries = Vec::new();
    for (id, answer) in answers {
        let values = answer
            .get("answers")?
            .as_array()?
            .iter()
            .map(|v| v.as_str().map(str::to_string))
            .collect::<Option<Vec<_>>>()?;
        entries.push((id.clone(), values));
    }
    Some(entries)
}

fn respond(questions: &Vec<RequestUserInputQuestion>, run: &HandlerRunResult) -> Option<AnswerEntries> {
    parse_response(questions, run, answers_of(&run.stdout))
}

#[test]
fn accepts_complete_answers_and_preserves_values() {
    let questions = vec![question("first"), question("second")];
    let run_result = successful_run(
        r#"{"answers":{"first":{"answers":["A"]},"second":{"answers":["custom value"]}}}"#,
    );

    let mut answers = respond(&questions, &run_result).expect("complete answers");
    answers.sort();
    assert_eq!(
        answers,
        vec![
            ("first".to_string(), vec!["A".to_string()]),
            ("second".to_string(), vec!["custom value".to_string()]),
        ]
    );
}

#[test]
fn rejects_unhandled_or_incomplete_answers() {
    let questions = vec![question("first"), question("second")];
    for stdout in [
        "",
        "{}",
        "{  }",
        "not json",
        r#"{"answers":{"first":{"answers":["A"]}}}"#,
        r#"{"answers":{"first":{"answers":["A"]},"unknown":{"answers":["B"]}}}"#,
        r#"{"answers":{"first":{"answers":["A"]},"second":{"answers":[" "]}}}"#,
    ] {
        assert_eq!(respond(&questions, &successful_run(stdout)), None);
    }
}

#[test]
fn rejects_failed_command_even_when_stdout_contains_answers() {
    let mut run_result = successful_run(r#"{"answers":{"first":{"answers":["secret"]}}}"#);
    run_result.exit_code = Some(1);

    assert_eq!(respond(&vec![question("first")], &run_result), None);
}

#[test]
fn no_questions_means_no_response() {
    let run = successful_run(r#"{"answers":{}}"#);
    assert_eq!(respond(&Vec::new(), &run), None);
}

#[test]
fn runs_are_reported_by_their_outcome() {
    let mut failed = successful_run("{}");
    failed.error = Some("spawn failed".to_string());
    assert_eq!(
        completion_status(&failed, false),
        (HookRunStatus::Failed, Some("user input hook execution failed"))
    );
    assert_eq!(
        completion_status(&successful_run(" {} "), false),
        (HookRunStatus::Completed, None)
    );
    assert_eq!(
        completion_status(&successful_run("x"), true),
        (HookRunStatus::Completed, None)
    );
    assert_eq!(
        completion_status(&successful_run("not json"), false),
        (
            HookRunStatus::Failed,
            Some("user input hook returned an invalid response")
        )
    );
    assert!(is_unhandled_stdout("  \n"));
    assert!(is_unhandled_stdout("{ }"));
    assert!(!is_unhandled_stdout("[]"));
}

#[test]
fn only_an_empty_object_declines_to_answer() {
    assert!(is_unhandled_stdout("{\t\r\n }"));
    assert!(is_unhandled_stdout("\n{}\n"));
    assert!(!is_unhandled_stdout(r#"{"answers":{}}"#));
    assert!(!is_unhandled_stdout("{} x"));
    assert!(!is_unhandled_stdout("{\u{a0}}"));
    assert!(!is_unhandled_stdout("null"));
}

#[test]
fn runs_handlers_in_order_and_stops_after_first_complete_answer() {
    let questions = vec![question("first")];
    let handlers = [
        ("first", "{}"),
        ("second", r#"{"answers":{"first":{"answers":["A"]}}}"#),
        ("third", "{}"),
    ];
    let mut order = Vec::new();
    let mut outcome = UserInputRequestOutcome::new();
    for (name, output) in handlers {
        order.push(name);
        let run = successful_run(&format!("{output}\n"));
        if outcome.record_run("turn-1", &questions, &run, answers_of(&run.stdout)) {
            break;
        }
    }

    assert_eq!(
        outcome.response,
        Some(vec![("first".to_string(), vec!["A".to_string()])])
    );
    assert_eq!(outcome.hook_events.len(), 2);
    assert_eq!(order, vec!["first", "second"]);
}

#[test]
fn failed_and_invalid_runs_fall_through_with_their_reports() {
    let questions = vec![question("first")];
    let mut outcome = UserInputRequestOutcome::new();
    let mut failed = successful_run("{}");
    failed.exit_code = Some(2);
    assert!(!outcome.record_run("turn-7", &questions, &failed, None));
    let invalid = successful_run("not json");
    assert!(!outcome.record_run("turn-7", &questions, &invalid, answers_of("not json")));
    let declined = successful_run("  ");
    assert!(!outcome.record_run("turn-7", &questions, &declined, None));
    assert_eq!(outcome.response, None);
    assert_eq!(
        outcome.hook_events,
        vec![
            HookCompletedEvent {
                turn_id: "turn-7".to_string(),
                status: HookRunStatus::Failed,
                error: Some("user input hook execution failed".to_string()),
            },
            HookCompletedEvent {
                turn_id: "turn-7".to_string(),
                status: HookRunStatus::Failed,
                error: Some("user input hook returned an invalid response".to_string()),
            },
            HookCompletedEvent {
                turn_id: "turn-7".to_string(),
                status: HookRunStatus::Completed,
                error: None,
            },
        ]
    );
}

#[test]
fn handlers_run_by_display_order_keeping_ties_in_place() {
    assert_eq!(handler_order(&vec![3, -1, 3, 0, -1]), vec![1, 4, 3, 0, 2]);
    assert!(handler_order(&Vec::new()).is_empty());
}
