use codex_text_tools::file_tools::{
    command_execution_item, CommandExecutionStatus,
    check_file_tool_call, check_mutation_call, create_file_mutation_tool, create_file_tool,
    file_tool_presentation, presentation_of, truncate_for_model, unresolved_path_message,
    validate_file_path, validation_failed_message, FileMutationToolHandler, FileMutationToolKind,
    FileToolHandler, FileToolKind, JsonSchema, MutationArgs, ParsedCommand, WriteFileArgs,
    MAX_FILE_PATH_BYTES,
};
use codex_text_tools::structured_file_change::MAX_MODEL_VISIBLE_PATH_CHARS;
use codex_text_tools::tool_call_loop::ToolPayload;

#[test]
fn file_paths_are_bounded_and_model_visible_text_is_truncated() {
    let boundary = "a".repeat(MAX_FILE_PATH_BYTES);
    assert!(validate_file_path(FileMutationToolKind::Edit, &boundary).is_ok());
    let oversized = format!("{boundary}a");
    assert!(validate_file_path(FileMutationToolKind::Edit, &oversized).is_err());

    let displayed = truncate_for_model(&oversized);
    assert_eq!(displayed.chars().count(), MAX_MODEL_VISIBLE_PATH_CHARS);
    assert!(displayed.ends_with('…'));
    assert!(!displayed.contains(&oversized));
}

#[test]
fn presentations_map_native_tools_to_exploration_commands() {
    let read = file_tool_presentation(FileToolKind::Read, r#"{"file_path":"src/main.rs"}"#);
    assert_eq!(
        read.parsed_cmd,
        vec![ParsedCommand::Read {
            cmd: "read_file src/main.rs".to_string(),
            name: "main.rs".to_string(),
            path: "src/main.rs".to_string(),
        }]
    );
    assert_eq!(
        file_tool_presentation(FileToolKind::Grep, r#"{"pattern":"needle","path":"src"}"#)
            .parsed_cmd,
        vec![ParsedCommand::Search {
            cmd: "grep_files src".to_string(),
            query: Some("needle".to_string()),
            path: Some("src".to_string()),
        }]
    );
    assert_eq!(
        file_tool_presentation(FileToolKind::Glob, r#"{"pattern":"*.rs"}"#).parsed_cmd,
        vec![ParsedCommand::ListFiles {
            cmd: "glob_files".to_string(),
            path: Some("*.rs".to_string()),
        }]
    );
}

#[test]
fn presentation_of_unparsable_arguments_names_only_the_tool() {
    let p = file_tool_presentation(FileToolKind::Read, "not json");
    assert_eq!(p.command, vec!["read_file".to_string()]);
    assert_eq!(
        p.parsed_cmd,
        vec![ParsedCommand::Unknown {
            cmd: "read_file".to_string()
        }]
    );
    let q = presentation_of(FileToolKind::Read, Some("dir/..".to_string()), None, None);
    assert_eq!(
        q.parsed_cmd,
        vec![ParsedCommand::Read {
            cmd: "read_file dir/..".to_string(),
            name: "dir/..".to_string(),
            path: "dir/..".to_string(),
        }]
    );
}

#[test]
fn file_tool_specs_use_standard_function_tools() {
    let names = [FileToolKind::Read, FileToolKind::Grep, FileToolKind::Glob]
        .into_iter()
        .map(create_file_tool)
        .map(|tool| tool.name)
        .collect::<Vec<_>>();

    assert_eq!(names, vec!["read_file", "grep_files", "glob_files"]);
}

#[test]
fn mutation_tool_specs_use_standard_function_tools() {
    let names = [FileMutationToolKind::Edit, FileMutationToolKind::Write]
        .into_iter()
        .map(create_file_mutation_tool)
        .map(|tool| tool.name)
        .collect::<Vec<_>>();

    assert_eq!(names, vec!["edit_file", "write_file"]);
}

#[test]
fn declarations_list_parameters_in_name_order() {
    let grep = create_file_tool(FileToolKind::Grep);
    let names = grep
        .properties
        .iter()
        .map(|(name, _)| name.as_str())
        .collect::<Vec<_>>();
    assert_eq!(
        names,
        vec!["context", "glob", "head_limit", "output_mode", "path", "pattern"]
    );
    assert_eq!(grep.required, vec!["pattern"]);
    assert!(!grep.strict && !grep.additional_properties);
    match &grep.properties[3].1 {
        JsonSchema::StringEnum { values, .. } => {
            assert_eq!(values, &vec!["files_with_matches", "content", "count"])
        }
        other => panic!("unexpected schema {other:?}"),
    }
    let edit = FileMutationToolHandler::new(FileMutationToolKind::Edit).spec();
    assert_eq!(edit.required, vec!["file_path", "old_string", "new_string"]);
    let handler = FileToolHandler::new(FileToolKind::Glob);
    assert_eq!(handler.tool_name().name, "glob_files");
    assert!(handler.supports_parallel_tool_calls());
    assert_eq!(
        FileMutationToolHandler::new(FileMutationToolKind::Write).model_argument_bytes_limit(),
        Some(8192)
    );
}

#[test]
fn mutation_calls_are_checked_before_they_run() {
    let custom = ToolPayload::Custom {
        input: "x".to_string(),
    };
    assert_eq!(
        check_mutation_call(FileMutationToolKind::Edit, &custom, Some(false)),
        Err("edit_file handler received unsupported payload".to_string())
    );
    let big = ToolPayload::Function {
        arguments: "x".repeat(8193),
    };
    assert_eq!(
        check_mutation_call(FileMutationToolKind::Write, &big, Some(false)),
        Err("write_file arguments exceed the 8192-byte limit; use apply_patch for larger changes"
            .to_string())
    );
    let ok = ToolPayload::Function {
        arguments: "{}".to_string(),
    };
    assert_eq!(
        check_mutation_call(FileMutationToolKind::Write, &ok, None),
        Err("write_file is unavailable in this session".to_string())
    );
    assert_eq!(
        check_mutation_call(FileMutationToolKind::Write, &ok, Some(true)),
        Err("write_file is only available for the local Windows environment; use apply_patch for remote environments".to_string())
    );
    assert_eq!(
        check_mutation_call(FileMutationToolKind::Write, &ok, Some(false)),
        Ok("{}".to_string())
    );
    assert_eq!(
        check_file_tool_call(FileToolKind::Read, &ok, false),
        Err("read_file is unavailable in this session".to_string())
    );
    assert_eq!(
        validate_file_path(FileMutationToolKind::Write, "a\nb"),
        Err("write_file.file_path must be non-empty, at most 1024 bytes, and contain no control line breaks".to_string())
    );
    assert!(validate_file_path(FileMutationToolKind::Write, "").is_err());
    let args = MutationArgs::Write(WriteFileArgs {
        file_path: "new.txt".to_string(),
        content: "new".to_string(),
    });
    assert_eq!(args.file_path(), "new.txt");
    assert_eq!(
        unresolved_path_message(FileMutationToolKind::Edit, "x"),
        "unable to resolve edit_file path `x`"
    );
    assert_eq!(
        validation_failed_message(FileMutationToolKind::Edit, "boom"),
        "edit_file validation failed: boom"
    );
}

#[test]
fn command_items_carry_status_exit_code_and_duration() {
    let presentation = file_tool_presentation(FileToolKind::Read, r#"{"file_path":"a.txt"}"#);
    let started = command_execution_item(
        "call-1",
        "/work",
        presentation.clone(),
        CommandExecutionStatus::InProgress,
        None,
    );
    assert_eq!(started.id, "call-1");
    assert_eq!(started.cwd, "/work");
    assert_eq!(started.command, vec!["read_file a.txt".to_string()]);
    assert_eq!(started.exit_code, None);
    assert_eq!(started.duration_ms, None);
    let done = command_execution_item(
        "call-1",
        "/work",
        presentation.clone(),
        CommandExecutionStatus::Completed,
        Some(12),
    );
    assert_eq!(done.exit_code, Some(0));
    assert_eq!(done.duration_ms, Some(12));
    assert_eq!(done.parsed_cmd, presentation.parsed_cmd);
    let failed = command_execution_item(
        "call-1",
        "/work",
        presentation.clone(),
        CommandExecutionStatus::Failed,
        Some(3),
    );
    assert_eq!(failed.exit_code, Some(1));
    let declined = command_execution_item(
        "call-1",
        "/work",
        presentation,
        CommandExecutionStatus::Declined,
        None,
    );
    assert_eq!(declined.exit_code, Some(1));
}
