use codex_text_tools::seek_sequence::seek_sequence;
use codex_text_tools::seek_sequence::ApplyPatchFileUpdateMode;

fn to_vec(strings: &[&str]) -> Vec<String> {
    strings.iter().map(|s| s.to_string()).collect()
}

#[test]
fn test_exact_match_finds_sequence() {
    let lines = to_vec(&["foo", "bar", "baz"]);
    let pattern = to_vec(&["bar", "baz"]);
    assert_eq!(
        seek_sequence(&lines, &pattern, 0, false, ApplyPatchFileUpdateMode::NormalizeToLf),
        Some(1)
    );
}

#[test]
fn test_rstrip_match_ignores_trailing_whitespace() {
    let lines = to_vec(&["foo   ", "bar\t\t"]);
    let pattern = to_vec(&["foo", "bar"]);
    assert_eq!(
        seek_sequence(&lines, &pattern, 0, false, ApplyPatchFileUpdateMode::NormalizeToLf),
        Some(0)
    );
}

#[test]
fn test_leading_whitespace_mismatch_is_rejected() {
    let lines = to_vec(&["    foo   ", "   bar\t"]);
    let pattern = to_vec(&["foo", "bar"]);
    assert_eq!(
        seek_sequence(&lines, &pattern, 0, false, ApplyPatchFileUpdateMode::NormalizeToLf),
        None
    );
}

#[test]
fn test_unicode_match_preserves_leading_whitespace() {
    let lines = to_vec(&["    ‘quoted’ — value   "]);
    let matching_pattern = to_vec(&["    'quoted' - value"]);
    let mismatched_pattern = to_vec(&["   'quoted' - value"]);

    assert_eq!(
        seek_sequence(&lines, &matching_pattern, 0, false, ApplyPatchFileUpdateMode::NormalizeToLf),
        Some(0)
    );
    assert_eq!(
        seek_sequence(&lines, &mismatched_pattern, 0, false, ApplyPatchFileUpdateMode::NormalizeToLf),
        None
    );
}

#[test]
fn test_pattern_longer_than_input_returns_none() {
    let lines = to_vec(&["just one line"]);
    let pattern = to_vec(&["too", "many", "lines"]);
    assert_eq!(
        seek_sequence(&lines, &pattern, 0, false, ApplyPatchFileUpdateMode::NormalizeToLf),
        None
    );
}

#[test]
fn test_eof_match_prefers_file_end() {
    let lines = to_vec(&["target", "middle", "target   "]);
    let pattern = to_vec(&["target"]);
    assert_eq!(
        seek_sequence(&lines, &pattern, 0, true, ApplyPatchFileUpdateMode::PreserveLineEndings),
        Some(2)
    );
}

#[test]
fn test_eof_match_falls_back_to_search_start() {
    let lines = to_vec(&["before", "target", "not the target"]);
    let pattern = to_vec(&["target"]);
    assert_eq!(
        seek_sequence(&lines, &pattern, 1, true, ApplyPatchFileUpdateMode::PreserveLineEndings),
        Some(1)
    );
}

#[test]
fn test_eof_match_does_not_move_before_search_start_in_preserve_mode() {
    let lines = to_vec(&["target"]);
    let pattern = to_vec(&["target"]);
    assert_eq!(
        seek_sequence(&lines, &pattern, 1, true, ApplyPatchFileUpdateMode::PreserveLineEndings),
        None
    );
}

#[test]
fn empty_pattern_matches_at_start() {
    let lines = to_vec(&["a"]);
    assert_eq!(
        seek_sequence(&lines, &[], 7, false, ApplyPatchFileUpdateMode::NormalizeToLf),
        Some(7)
    );
}

#[test]
fn exact_match_wins_over_earlier_relaxed_match() {
    let lines = to_vec(&["x  ", "x"]);
    let pattern = to_vec(&["x"]);
    assert_eq!(
        seek_sequence(&lines, &pattern, 0, false, ApplyPatchFileUpdateMode::NormalizeToLf),
        Some(1)
    );
}

#[test]
fn empty_range_finds_nothing_without_looking_at_lines() {
    let lines = to_vec(&["a", "b"]);
    let pattern = to_vec(&["a"]);
    assert_eq!(
        codex_text_tools::seek_sequence::sequence_matches_in_range(&lines, &pattern, 5, 4),
        None
    );
    assert_eq!(
        codex_text_tools::seek_sequence::sequence_matches_in_range(&lines, &pattern, 0, 1),
        Some(0)
    );
}
