//! Structured edits and writes driven against an in-memory file system.
use std::collections::{HashMap, HashSet};

use codex_text_tools::structured_file_change::{
    apply_structured_file_mutation, check_edit_target, prepare_structured_edit,
    prepare_structured_write, structured_io_error, validate_structured_edit,
    validate_structured_write, ApplyPatchError, EditTargetProbe, MetadataProbe, MutationEvent,
    MutationStep, StructuredFileMutation, WriteDisposition, MAX_STRUCTURED_FILE_BYTES,
};

/// Files, directories and dangling symbolic links by path.
#[derive(Default)]
struct MemoryFs {
    files: HashMap<String, Vec<u8>>,
    directories: HashSet<String>,
    dangling_links: HashSet<String>,
}

impl MemoryFs {
    fn write(&mut self, path: &str, contents: &[u8]) {
        self.files.insert(path.to_string(), contents.to_vec());
    }

    fn read(&self, path: &str) -> Option<Vec<u8>> {
        self.files.get(path).cloned()
    }

    fn edit_probe(&self, path: &str) -> EditTargetProbe {
        if let Some(bytes) = self.files.get(path) {
            EditTargetProbe::Found {
                is_file: true,
                size: bytes.len() as u64,
            }
        } else if self.directories.contains(path) {
            EditTargetProbe::Found {
                is_file: false,
                size: 0,
            }
        } else {
            EditTargetProbe::Failed("NotFound".to_string())
        }
    }

    fn write_probe(&self, path: &str) -> MetadataProbe {
        if self.files.contains_key(path) || self.directories.contains(path) {
            MetadataProbe::Exists
        } else {
            MetadataProbe::NotFound
        }
    }

    fn prepare_edit(
        &self,
        path: &str,
        old: &str,
        new: &str,
        replace_all: bool,
    ) -> Result<StructuredFileMutation, ApplyPatchError> {
        validate_structured_edit(old, new)?;
        check_edit_target(path, self.edit_probe(path))?;
        let bytes = self
            .read(path)
            .ok_or_else(|| structured_io_error("Failed to read file to edit", path, "NotFound"))?;
        prepare_structured_edit(path, old, new, replace_all, bytes)
    }

    fn prepare_write(&self, path: &str, content: &str) -> Result<StructuredFileMutation, ApplyPatchError> {
        validate_structured_write(content)?;
        prepare_structured_write(path, content.to_string(), self.write_probe(path))
    }

    fn apply(&mut self, mutation: &StructuredFileMutation) -> Result<(), ApplyPatchError> {
        let mut step = apply_structured_file_mutation(mutation, MutationEvent::Begin);
        loop {
            step = match step {
                MutationStep::Reread => {
                    let current = self.read(&mutation.path).ok_or_else(|| "NotFound".to_string());
                    apply_structured_file_mutation(mutation, MutationEvent::Reread(current))
                }
                MutationStep::Write(disposition) => {
                    let occupied = self.files.contains_key(&mutation.path)
                        || self.dangling_links.contains(&mutation.path);
                    let written = match disposition {
                        WriteDisposition::CreateNew if occupied => false,
                        _ => {
                            self.write(&mutation.path, &mutation.new_contents);
                            true
                        }
                    };
                    apply_structured_file_mutation(mutation, MutationEvent::Written(written))
                }
                MutationStep::Done { result, .. } => return result,
            };
        }
    }
}

#[test]
fn edit_preserves_bom_mixed_line_endings_and_unicode() {
    let mut fs = MemoryFs::default();
    let path = "中文 file.txt";
    fs.write(path, b"\xef\xbb\xbfalpha\r\n  \xe4\xb8\xad\xe6\x96\x87\nlast\r\nuntouched\n");

    let mutation = fs.prepare_edit(path, "  中文\nlast", "  修改\nlast", false).unwrap();
    fs.apply(&mutation).unwrap();

    assert_eq!(
        fs.read(path).unwrap(),
        b"\xef\xbb\xbfalpha\r\n  \xe4\xbf\xae\xe6\x94\xb9\nlast\r\nuntouched\n"
    );
}

#[test]
fn edit_requires_an_exact_unique_match_by_default() {
    let mut fs = MemoryFs::default();
    fs.write("duplicate.txt", b"  same\n  same\n");

    let indent_error = fs
        .prepare_edit("duplicate.txt", "same", "changed", false)
        .unwrap_err();
    assert!(indent_error.to_string().contains("found old_string 2 times"));

    let missing_error = fs
        .prepare_edit("duplicate.txt", "   same", "changed", false)
        .unwrap_err();
    assert!(missing_error
        .to_string()
        .contains("could not find old_string"));
    assert_eq!(fs.read("duplicate.txt").unwrap(), b"  same\n  same\n");
}

#[test]
fn edit_replace_all_updates_every_exact_match() {
    let mut fs = MemoryFs::default();
    fs.write("all.txt", b"same\r\nsame\r\n");

    let mutation = fs.prepare_edit("all.txt", "same", "changed", true).unwrap();
    fs.apply(&mutation).unwrap();

    assert_eq!(fs.read("all.txt").unwrap(), b"changed\r\nchanged\r\n");
}

#[test]
fn edit_rejects_stale_file_before_writing() {
    let mut fs = MemoryFs::default();
    fs.write("stale.txt", b"before\n");
    let mutation = fs.prepare_edit("stale.txt", "before", "after", false).unwrap();
    fs.write("stale.txt", b"external\n");

    let error = fs.apply(&mutation).unwrap_err();

    assert!(error
        .to_string()
        .contains("changed after edit_file validation"));
    assert_eq!(fs.read("stale.txt").unwrap(), b"external\n");
}

#[test]
fn write_creates_exact_content_and_missing_parents() {
    let mut fs = MemoryFs::default();
    let path = "nested/new.txt";
    let mutation = fs.prepare_write(path, "no final newline").unwrap();

    fs.apply(&mutation).unwrap();

    assert_eq!(fs.read(path).unwrap(), b"no final newline");
}

#[test]
fn write_never_overwrites_an_existing_or_concurrently_created_file() {
    let mut fs = MemoryFs::default();
    fs.write("existing.txt", b"keep");
    let existing_error = fs.prepare_write("existing.txt", "replace").unwrap_err();
    assert!(existing_error.to_string().contains("will not overwrite"));

    let mutation = fs.prepare_write("raced.txt", "ours").unwrap();
    fs.write("raced.txt", b"external");
    let race_error = fs.apply(&mutation).unwrap_err();

    assert!(race_error.to_string().contains("Failed to write file"));
    assert_eq!(fs.read("raced.txt").unwrap(), b"external");
}

#[test]
fn write_does_not_follow_a_dangling_symlink() {
    let mut fs = MemoryFs::default();
    fs.dangling_links.insert("link.txt".to_string());
    let mutation = fs.prepare_write("link.txt", "must not be written").unwrap();

    assert!(fs.apply(&mutation).is_err());
    assert!(fs.dangling_links.contains("link.txt"));
    assert!(fs.read("link.txt").is_none());
}

#[test]
fn edit_rejects_utf16_and_no_op() {
    let mut fs = MemoryFs::default();
    fs.write("utf16.txt", &[0xff, 0xfe, b'a', 0]);
    let encoding_error = fs.prepare_edit("utf16.txt", "a", "b", false).unwrap_err();
    assert!(encoding_error.to_string().contains("is UTF-16"));

    fs.write("utf8.txt", b"same");
    assert_eq!(
        fs.prepare_edit("utf8.txt", "same", "same", false).unwrap_err(),
        ApplyPatchError::NoFilesModified
    );
}

#[test]
fn edit_rejects_empty_search_and_nul_replacement() {
    let mut fs = MemoryFs::default();
    fs.write("input.txt", b"before");

    let empty_error = fs.prepare_edit("input.txt", "", "after", false).unwrap_err();
    assert!(empty_error.to_string().contains("must not be empty"));

    let nul_error = fs
        .prepare_edit("input.txt", "before", "after\0", false)
        .unwrap_err();
    assert!(nul_error.to_string().contains("NUL"));
    assert_eq!(fs.read("input.txt").unwrap(), b"before");
}

#[test]
fn structured_mutations_reject_non_text_and_invalid_targets() {
    let mut fs = MemoryFs::default();
    fs.write("binary.txt", &[b'a', 0, b'b']);
    assert!(fs
        .prepare_edit("binary.txt", "a", "b", false)
        .unwrap_err()
        .to_string()
        .contains("binary"));

    fs.write("invalid.txt", &[0x80]);
    assert!(fs
        .prepare_edit("invalid.txt", "a", "b", false)
        .unwrap_err()
        .to_string()
        .contains("UTF-8"));

    fs.directories.insert("dir".to_string());
    assert!(fs
        .prepare_edit("dir", "a", "b", false)
        .unwrap_err()
        .to_string()
        .contains("not a file"));
    assert!(fs
        .prepare_write("dir/nul.txt", "a\0b")
        .unwrap_err()
        .to_string()
        .contains("NUL"));
}

#[test]
fn structured_mutations_enforce_size_and_final_newline_boundaries() {
    let mut fs = MemoryFs::default();
    fs.write("oversized.txt", &vec![b'a'; MAX_STRUCTURED_FILE_BYTES + 1]);
    assert!(fs
        .prepare_edit("oversized.txt", "a", "b", false)
        .unwrap_err()
        .to_string()
        .contains("exceeds"));

    let mut boundary_contents = vec![b'a'; MAX_STRUCTURED_FILE_BYTES];
    *boundary_contents.last_mut().unwrap() = b'x';
    fs.write("boundary-file.txt", &boundary_contents);
    fs.prepare_edit("boundary-file.txt", "x", "y", false).unwrap();

    fs.prepare_write("boundary.txt", &"a".repeat(MAX_STRUCTURED_FILE_BYTES))
        .unwrap();
    assert!(fs
        .prepare_write("boundary.txt", &"a".repeat(MAX_STRUCTURED_FILE_BYTES + 1))
        .unwrap_err()
        .to_string()
        .contains("exceeds"));

    fs.write("expansion.txt", b"x");
    fs.prepare_edit(
        "expansion.txt",
        "x",
        &"a".repeat(MAX_STRUCTURED_FILE_BYTES),
        false,
    )
    .unwrap();
    assert!(fs
        .prepare_edit(
            "expansion.txt",
            "x",
            &"a".repeat(MAX_STRUCTURED_FILE_BYTES + 1),
            false,
        )
        .unwrap_err()
        .to_string()
        .contains("result exceeds"));

    fs.write("unterminated.txt", b"before");
    let mutation = fs
        .prepare_edit("unterminated.txt", "before", "after\n", false)
        .unwrap();
    fs.apply(&mutation).unwrap();
    assert_eq!(fs.read("unterminated.txt").unwrap(), b"after");

    fs.write("terminated.txt", b"before\r\n");
    let mutation = fs
        .prepare_edit("terminated.txt", "before\n", "after", false)
        .unwrap();
    fs.apply(&mutation).unwrap();
    assert_eq!(fs.read("terminated.txt").unwrap(), b"after\r\n");
}

#[test]
fn edit_rechecks_actual_size_after_metadata_lookup() {
    let path = "growing.txt";
    let probe = EditTargetProbe::Found {
        is_file: true,
        size: "small".len() as u64,
    };
    assert!(check_edit_target(path, probe).is_ok());
    let grown = vec![b'a'; MAX_STRUCTURED_FILE_BYTES + 1];

    let error = prepare_structured_edit(path, "small", "updated", false, grown.clone()).unwrap_err();

    assert!(error.to_string().contains("target exceeds"));
    assert_eq!(grown.len(), 8 * 1024 * 1024 + 1);
}
