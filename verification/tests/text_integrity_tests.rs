use codex_text_tools::text_integrity::analyze_text_integrity;
use codex_text_tools::text_integrity::TextIntegrityFlag;

#[test]
fn accepts_normal_multilingual_text() {
    let analysis = analyze_text_integrity("git commit -m '修复 TUI 中文输出'");

    assert_eq!(analysis.flags, Vec::<TextIntegrityFlag>::new());
    assert_eq!(analysis.byte_count, 39);
    assert_eq!(analysis.char_count, 27);
}

#[test]
fn detects_provider_corruption_signals_without_retaining_content() {
    let analysis = analyze_text_integrity("validationcodes andтобы \u{fffd} Ã©");

    assert_eq!(
        analysis.flags,
        vec![
            TextIntegrityFlag::ReplacementCharacter,
            TextIntegrityFlag::LikelyMojibake,
            TextIntegrityFlag::MixedAlphabeticScripts,
        ]
    );
}

#[test]
fn detects_controls_that_can_change_terminal_rendering() {
    let analysis = analyze_text_integrity("safe\u{202e}txt\u{1b}");

    assert_eq!(
        analysis.flags,
        vec![
            TextIntegrityFlag::UnexpectedControlCharacter,
            TextIntegrityFlag::BidirectionalControlCharacter,
        ]
    );
}

#[test]
fn null_character_is_flagged_and_counted() {
    let analysis = analyze_text_integrity("a\0b");
    assert_eq!(
        analysis.flags,
        vec![
            TextIntegrityFlag::NullCharacter,
            TextIntegrityFlag::UnexpectedControlCharacter,
        ]
    );
    assert_eq!(analysis.byte_count, 3);
    assert!(analysis.is_suspicious());
}

#[test]
fn scripts_in_separate_words_are_not_mixed() {
    let analysis = analyze_text_integrity("hello мир");
    assert!(!analysis.is_suspicious());
    let mixed = analyze_text_integrity("heмир");
    assert_eq!(mixed.flags, vec![TextIntegrityFlag::MixedAlphabeticScripts]);
}

#[test]
fn flag_names_are_stable() {
    assert_eq!(TextIntegrityFlag::ReplacementCharacter.as_str(), "replacement_character");
    assert_eq!(TextIntegrityFlag::MixedAlphabeticScripts.as_str(), "mixed_alphabetic_scripts");
    assert_eq!(TextIntegrityFlag::LikelyMojibake.as_str(), "likely_mojibake");
}

#[test]
fn no_flag_disappears_when_texts_are_joined() {
    let first = "bad \u{fffd} text";
    let second = "Ã© tail";
    let joined = format!("{first}{second}");
    let flags_first = analyze_text_integrity(first).flags;
    let flags_second = analyze_text_integrity(second).flags;
    let flags_joined = analyze_text_integrity(&joined).flags;
    assert!(flags_first.contains(&TextIntegrityFlag::ReplacementCharacter));
    assert!(flags_second.contains(&TextIntegrityFlag::LikelyMojibake));
    for flag in flags_first.iter().chain(flags_second.iter()) {
        assert!(flags_joined.contains(flag));
    }
}
