use codex_text_tools::compaction_guidance::CompactionGuidance;

const LIMIT: usize = 4096;

#[test]
fn parse_trims_and_renders_guidance() {
    let guidance =
        CompactionGuidance::parse(Some("  preserve the build evidence  ".to_string()), LIMIT)
            .expect("guidance should be valid")
            .expect("guidance should be present");

    assert_eq!(
        guidance.render(),
        "<compaction_guidance>\npreserve the build evidence\n</compaction_guidance>"
    );
}

#[test]
fn parse_enforces_utf8_byte_limit() {
    let at_limit = "a".repeat(LIMIT);
    let over_limit = format!("{at_limit}a");

    assert!(CompactionGuidance::parse(Some(at_limit), LIMIT).is_ok());
    assert_eq!(
        CompactionGuidance::parse(Some(over_limit), LIMIT),
        Err(format!("compaction guidance exceeds the {LIMIT}-byte limit"))
    );
}

#[test]
fn limit_counts_bytes_not_characters() {
    let two_byte = "é".repeat(3);
    assert_eq!(
        CompactionGuidance::parse(Some(two_byte.clone()), 5),
        Err("compaction guidance exceeds the 5-byte limit".to_string())
    );
    assert!(CompactionGuidance::parse(Some(two_byte), 6)
        .expect("fits")
        .is_some());
}

#[test]
fn missing_or_blank_guidance_is_none() {
    assert_eq!(CompactionGuidance::parse(None, LIMIT), Ok(None));
    assert_eq!(
        CompactionGuidance::parse(Some(" \n\t ".to_string()), LIMIT),
        Ok(None)
    );
}

#[test]
fn fragment_metadata_and_append() {
    let guidance = CompactionGuidance::parse(Some("keep tests".to_string()), LIMIT)
        .unwrap()
        .unwrap();
    assert_eq!(guidance.content_kind(), "compaction.guidance");
    assert_eq!(guidance.role(), "developer");
    assert_eq!(
        CompactionGuidance::type_markers(),
        ("<compaction_guidance>\n", "\n</compaction_guidance>")
    );
    assert_eq!(guidance.body(), "keep tests");
    let mut prompt = "Summarize.".to_string();
    guidance.append_to(&mut prompt);
    assert_eq!(
        prompt,
        "Summarize.\n\n<compaction_guidance>\nkeep tests\n</compaction_guidance>"
    );
}
