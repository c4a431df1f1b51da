use codex_text_tools::file_search::{
    append_capped, check_glob_args, check_grep_args, check_search_environment, format_search_result, glob_argv, grep_argv,
    requested_search_path, rg_exit_error, sort_lines, truncate_to_complete_line,
    validate_head_limit, GlobFilesArgs, GrepFilesArgs, GrepOutputMode, GrepPlan,
    DEFAULT_RESULT_LINES, MAX_RESULT_LINES, MAX_SEARCH_LINE_BYTES, MAX_SEARCH_RESULT_BYTES,
};

fn captured(stdout: &[u8]) -> String {
    String::from_utf8(stdout.to_vec()).expect("utf-8 output")
}

#[test]
fn search_result_applies_line_limit_and_sorts_globs() {
    let output = format_search_result(&captured(b"z.rs\na.rs\nm.rs\n"), false, 2, true);

    assert_eq!(output.output, "a.rs\nm.rs\n");
    assert_eq!(output.result_count, 2);
    assert!(output.truncated);
}

#[test]
fn head_limit_is_bounded() {
    assert_eq!(
        validate_head_limit("grep_files", None).expect("default limit"),
        DEFAULT_RESULT_LINES
    );
    assert!(validate_head_limit("grep_files", Some(0)).is_err());
    assert!(validate_head_limit("grep_files", Some(MAX_RESULT_LINES + 1)).is_err());
}

#[test]
fn capture_truncation_discards_partial_utf8_lines() {
    let mut bytes = "complete\n中文".as_bytes().to_vec();
    bytes.pop();

    truncate_to_complete_line(&mut bytes);

    assert_eq!(bytes, b"complete\n");
    assert!(std::str::from_utf8(&bytes).is_ok());
}

#[test]
fn search_result_limits_long_unicode_lines_without_dropping_following_results() {
    let long_line = "界".repeat(MAX_SEARCH_LINE_BYTES);
    let output = format_search_result(
        &captured(format!("{long_line}\nnext.rs\n").as_bytes()),
        false,
        DEFAULT_RESULT_LINES,
        false,
    );
    let text = output.output.as_str();

    assert_eq!(output.result_count, 2);
    assert!(output.truncated);
    assert!(text.len() <= MAX_SEARCH_RESULT_BYTES);
    assert!(text.contains("…\nnext.rs\n"));
}

#[test]
fn head_limit_error_names_the_tool() {
    assert_eq!(
        validate_head_limit("glob_files", Some(0)),
        Err("glob_files.head_limit must be between 1 and 1000".to_string())
    );
}

#[test]
fn byte_order_sorting_keeps_duplicates() {
    let sorted = sort_lines(vec![
        "b".to_string(),
        "B".to_string(),
        "a".to_string(),
        "b".to_string(),
        "é".to_string(),
    ]);
    assert_eq!(sorted, vec!["B", "a", "b", "b", "é"]);
}

#[test]
fn crlf_lines_and_budget_exhaustion() {
    let output = format_search_result("x\r\ny\n", false, 10, false);
    assert_eq!(output.output, "x\ny\n");
    assert!(!output.truncated);

    let many = "y".repeat(8000);
    let text = (0..10).map(|_| many.clone()).collect::<Vec<_>>().join("\n");
    let output = format_search_result(&text, false, 100, false);
    assert!(output.output.len() <= MAX_SEARCH_RESULT_BYTES);
    assert!(output.truncated);
    assert_eq!(output.result_count, 5);
}

#[test]
fn capture_is_capped() {
    let mut buffer = b"ab".to_vec();
    assert!(!append_capped(&mut buffer, b"cd", 4));
    assert_eq!(buffer, b"abcd");
    assert!(append_capped(&mut buffer, b"ef", 5));
    assert_eq!(buffer, b"abcde");
}

#[test]
fn rg_exit_status_is_reported_unless_matches_or_truncated() {
    assert_eq!(rg_exit_error(false, Some(0), "x"), None);
    assert_eq!(rg_exit_error(false, Some(1), ""), None);
    assert_eq!(rg_exit_error(true, Some(2), "boom"), None);
    assert_eq!(
        rg_exit_error(false, Some(2), "  regex parse error \n"),
        Some("rg exited with 2: regex parse error".to_string())
    );
    assert_eq!(
        rg_exit_error(false, None, " "),
        Some("rg exited with unknown status".to_string())
    );
    assert_eq!(
        rg_exit_error(false, Some(-3), ""),
        Some("rg exited with -3".to_string())
    );
}

#[test]
fn grep_arguments_are_checked_and_turned_into_a_command_line() {
    let mut args = GrepFilesArgs {
        pattern: String::new(),
        path: None,
        glob: None,
        output_mode: None,
        context: None,
        head_limit: None,
    };
    assert_eq!(
        check_grep_args(&args),
        Err("grep_files.pattern must not be empty".to_string())
    );
    args.pattern = "needle".to_string();
    args.context = Some(21);
    assert_eq!(
        check_grep_args(&args),
        Err("grep_files.context cannot exceed 20".to_string())
    );
    args.context = Some(2);
    args.output_mode = Some(GrepOutputMode::Content);
    args.glob = Some("*.rs".to_string());
    let plan = check_grep_args(&args).expect("valid");
    assert_eq!(
        plan,
        GrepPlan {
            head_limit: DEFAULT_RESULT_LINES,
            mode: GrepOutputMode::Content,
            context: 2
        }
    );
    assert_eq!(
        grep_argv("rg", &args, &plan, "C:\\repo"),
        vec![
            "rg", "--color", "never", "--encoding", "auto", "--line-number", "--column",
            "--no-heading", "--max-columns", "4096", "--max-columns-preview", "--context", "2",
            "--glob", "*.rs", "--", "needle", "C:\\repo"
        ]
    );
    args.output_mode = None;
    args.glob = None;
    let plan = check_grep_args(&args).expect("valid");
    assert_eq!(
        grep_argv("rg", &args, &plan, "src"),
        vec![
            "rg", "--color", "never", "--encoding", "auto", "--files-with-matches", "--",
            "needle", "src"
        ]
    );
}

#[test]
fn glob_arguments_are_checked_and_turned_into_a_command_line() {
    let args = GlobFilesArgs {
        pattern: "*.rs".to_string(),
        path: Some(String::new()),
        head_limit: Some(5),
    };
    assert_eq!(check_glob_args(&args), Ok(5));
    assert_eq!(requested_search_path(&args.path), None);
    assert_eq!(
        requested_search_path(&Some("src".to_string())),
        Some("src".to_string())
    );
    assert_eq!(
        glob_argv("rg", &args, "src"),
        vec!["rg", "--files", "--sort", "path", "--glob", "*.rs", "--", "src"]
    );
    let empty = GlobFilesArgs {
        pattern: String::new(),
        path: None,
        head_limit: None,
    };
    assert_eq!(
        check_glob_args(&empty),
        Err("glob_files.pattern must not be empty".to_string())
    );
}

#[test]
fn search_refuses_a_remote_environment() {
    assert_eq!(
        check_search_environment(true),
        Err("Windows native file search currently supports only the local environment".to_string())
    );
    assert_eq!(check_search_environment(false), Ok(()));
}
