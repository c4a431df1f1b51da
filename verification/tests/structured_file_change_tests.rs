use codex_text_tools::line_endings::{
    line_endings, normalize_line_endings, normalize_line_endings_with_offsets,
    preferred_line_ending, preserve_final_line_ending, restore_matched_line_endings, LineEnding,
};
use codex_text_tools::structured_file_change::{
    apply_structured_file_mutation, check_unchanged, display_path, prepare_structured_edit,
    prepare_structured_write, structured_io_error, success_message, write_failed_error,
    AppliedPatchFileChange, ApplyPatchError, ApplyPatchFileChange, MetadataProbe, MutationEvent,
    MutationStep, WriteDisposition, MAX_MODEL_VISIBLE_PATH_CHARS,
};

fn message(error: ApplyPatchError) -> String {
    error.to_string()
}

#[test]
fn model_visible_paths_and_io_errors_are_bounded() {
    let secret_suffix = "secret-path-component";
    let long_path = format!("/{}-{secret_suffix}", "a".repeat(400));
    let displayed = display_path(&long_path);
    assert_eq!(displayed.chars().count(), MAX_MODEL_VISIBLE_PATH_CHARS);
    assert!(displayed.ends_with('…'));
    assert!(!displayed.contains(secret_suffix));

    let error = structured_io_error("Failed to inspect file", &long_path, "PermissionDenied").to_string();
    assert!(!error.contains(secret_suffix));
    assert!(error.contains("PermissionDenied"));
}

#[test]
fn stale_file_is_detected_before_writing() {
    let error = check_unchanged("stale.txt", b"before\n", b"external\n").unwrap_err();
    assert!(message(error).contains("changed after edit_file validation"));
    assert!(check_unchanged("same.txt", b"x", b"x").is_ok());
    assert!(message(write_failed_error("raced.txt")).contains("Failed to write file"));
}

#[test]
fn write_plans_exact_content_and_never_overwrites() {
    let mutation = prepare_structured_write("new.txt", "no final newline".to_string(), MetadataProbe::NotFound)
        .expect("write");
    assert_eq!(mutation.new_contents, b"no final newline".to_vec());
    assert_eq!(mutation.write_disposition(), WriteDisposition::CreateNew);
    let existing = prepare_structured_write("existing.txt", "replace".to_string(), MetadataProbe::Exists)
        .unwrap_err();
    assert!(message(existing).contains("will not overwrite"));
    let failed = prepare_structured_write(
        "x.txt",
        "a".to_string(),
        MetadataProbe::Failed("PermissionDenied".to_string()),
    )
    .unwrap_err();
    assert_eq!(
        message(failed),
        "Failed to inspect file to create x.txt (PermissionDenied)"
    );
}

#[test]
fn actions_and_applied_changes_describe_the_mutation() {
    let edit = prepare_structured_edit("e.txt", "old", "new", false, b"old\n".to_vec()).expect("edit");
    let action = edit.action("C:\\repo");
    assert_eq!(action.changes.len(), 1);
    assert_eq!(action.changes[0].0, "e.txt");
    match &action.changes[0].1 {
        ApplyPatchFileChange::Update { new_content, move_path, .. } => {
            assert_eq!(new_content, "new\n");
            assert!(move_path.is_none());
        }
        other => panic!("unexpected change {other:?}"),
    }
    assert_eq!(
        edit.applied_change(),
        AppliedPatchFileChange::Update {
            old_content: "old\n".to_string(),
            new_content: "new\n".to_string()
        }
    );
    let write = prepare_structured_write("w.txt", "hi".to_string(), MetadataProbe::NotFound).expect("write");
    assert_eq!(
        write.applied_change(),
        AppliedPatchFileChange::Add {
            content: "hi".to_string()
        }
    );
    assert_eq!(success_message("w.txt"), "Success. Updated w.txt");
}

#[test]
fn line_endings_round_trip() {
    let text = b"a\r\nb\rc\nd";
    let normalized = normalize_line_endings(text);
    assert_eq!(normalized, b"a\nb\nc\nd".to_vec());
    let with_offsets = normalize_line_endings_with_offsets(text);
    assert_eq!(with_offsets.original_offsets, vec![0, 1, 3, 4, 5, 6, 7, 8]);
    assert_eq!(
        line_endings(text),
        vec![LineEnding::CrLf, LineEnding::Cr, LineEnding::Lf]
    );
    assert_eq!(preferred_line_ending(b"x\ry\r\n"), LineEnding::Cr);
    assert_eq!(preferred_line_ending(b"none"), LineEnding::Lf);
    assert_eq!(
        restore_matched_line_endings(&normalized, text, LineEnding::Lf),
        text.to_vec()
    );
    assert_eq!(
        restore_matched_line_endings(b"1\n2\n3\n", b"x\r\n", LineEnding::Cr),
        b"1\r\n2\r3\r".to_vec()
    );
    let mut bytes = b"tail\r\n\n".to_vec();
    preserve_final_line_ending(&mut bytes, false, LineEnding::Lf);
    assert_eq!(bytes, b"tail".to_vec());
    preserve_final_line_ending(&mut bytes, true, LineEnding::CrLf);
    assert_eq!(bytes, b"tail\r\n".to_vec());
}

#[test]
fn applying_an_edit_rereads_then_overwrites() {
    let mutation = prepare_structured_edit("a.txt", "old", "new", false, b"old\n".to_vec())
        .expect("edit");
    assert_eq!(
        apply_structured_file_mutation(&mutation, MutationEvent::Begin),
        MutationStep::Reread
    );
    assert_eq!(
        apply_structured_file_mutation(&mutation, MutationEvent::Reread(Ok(b"old\n".to_vec()))),
        MutationStep::Write(WriteDisposition::Overwrite)
    );
    assert_eq!(
        apply_structured_file_mutation(&mutation, MutationEvent::Written(true)),
        MutationStep::Done {
            result: Ok(()),
            changes: vec![AppliedPatchFileChange::Update {
                old_content: "old\n".to_string(),
                new_content: "new\n".to_string()
            }],
            exact: true,
            report: "Success. Updated a.txt".to_string(),
        }
    );
}

#[test]
fn applying_refuses_a_changed_file_and_reports_failed_writes() {
    let mutation = prepare_structured_edit("a.txt", "old", "new", false, b"old\n".to_vec())
        .expect("edit");
    let stale = "a.txt changed after edit_file validation; no changes were written. Re-read the file and retry.";
    assert_eq!(
        apply_structured_file_mutation(&mutation, MutationEvent::Reread(Ok(b"other\n".to_vec()))),
        MutationStep::Done {
            result: Err(ApplyPatchError::StructuredFileMutation(stale.to_string())),
            changes: Vec::new(),
            exact: true,
            report: stale.to_string(),
        }
    );
    let reread = "Failed to re-read file before edit a.txt (NotFound)";
    assert_eq!(
        apply_structured_file_mutation(
            &mutation,
            MutationEvent::Reread(Err("NotFound".to_string()))
        ),
        MutationStep::Done {
            result: Err(ApplyPatchError::StructuredFileMutation(reread.to_string())),
            changes: Vec::new(),
            exact: true,
            report: reread.to_string(),
        }
    );
    let failed = "Failed to write file a.txt. No changes were committed.";
    assert_eq!(
        apply_structured_file_mutation(&mutation, MutationEvent::Written(false)),
        MutationStep::Done {
            result: Err(ApplyPatchError::StructuredFileMutation(failed.to_string())),
            changes: Vec::new(),
            exact: false,
            report: failed.to_string(),
        }
    );
}

#[test]
fn applying_a_new_file_creates_it_without_rereading() {
    let mutation =
        prepare_structured_write("n.txt", "fresh".to_string(), MetadataProbe::NotFound).expect("write");
    assert_eq!(
        apply_structured_file_mutation(&mutation, MutationEvent::Begin),
        MutationStep::Write(WriteDisposition::CreateNew)
    );
    assert_eq!(
        apply_structured_file_mutation(&mutation, MutationEvent::Written(true)),
        MutationStep::Done {
            result: Ok(()),
            changes: vec![AppliedPatchFileChange::Add {
                content: "fresh".to_string()
            }],
            exact: true,
            report: "Success. Updated n.txt".to_string(),
        }
    );
}

#[test]
fn edits_carry_a_unified_diff_of_the_change() {
    let mutation = prepare_structured_edit("e.txt", "old", "new", false, b"old\n".to_vec())
        .expect("edit");
    assert_eq!(mutation.unified_diff, "@@ -1 +1 @@\n-old\n+new\n");
}

#[test]
fn lf_edit_replaces_only_the_first_occurrence_text() {
    let mutation = prepare_structured_edit(
        "f.txt",
        "beta",
        "BETA\nmore",
        false,
        b"alpha\nbeta\ngamma\n".to_vec(),
    )
    .expect("edit");
    assert_eq!(mutation.new_contents, b"alpha\nBETA\nmore\ngamma\n".to_vec());

    let restored = prepare_structured_edit("f.txt", "a\n", "b", false, b"a\n".to_vec())
        .expect("edit");
    assert_eq!(restored.new_contents, b"b\n".to_vec());
}
