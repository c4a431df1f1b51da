use codex_text_tools::tool_output_spill::build_preview;
use codex_text_tools::tool_output_spill::spill_file_name;

#[test]
fn preview_is_utf8_safe_and_bounded() {
    let text = "开始".repeat(2_000);
    let preview = build_preview(&text, text.len(), "$CODEX_HOME/tool-results/test.txt", 1024);

    assert!(preview.len() <= 1024);
    assert!(preview.contains("Full tool output"));
    assert!(preview.contains('…'));
}

#[test]
fn preview_keeps_head_and_tail_of_short_budget() {
    let text = "abcdefghij".repeat(10);
    let preview = build_preview(&text, 100, "p", 60);
    assert!(preview.starts_with("[Full tool output: 100 bytes; saved to p]\n"));
    assert!(preview.ends_with("ghij"));
    assert!(preview.len() <= 60);
}

#[test]
fn notice_alone_is_cut_at_a_character_boundary() {
    let preview = build_preview("body", 4, "路径", 40);
    assert!(preview.len() <= 40);
    assert!("[Full tool output: 4 bytes; saved to 路径]\n".starts_with(&preview));
}

#[test]
fn spill_file_name_is_sha1_of_call_and_text() {
    let name = spill_file_name("call-1", "same output");
    assert_eq!(name.len(), 44);
    assert!(name.ends_with(".txt"));
    assert_eq!(name, spill_file_name("call-1", "same output"));
    assert_ne!(name, spill_file_name("call-2", "same output"));
    assert_eq!(
        spill_file_name("call-1", "hello"),
        "b10158eb9aadad6c34ac2b465d357dbef69395b0.txt"
    );
}

#[test]
fn notice_and_separator_are_cut_to_the_budget() {
    let notice = "[Full tool output: 1 bytes; saved to p]\n";
    assert_eq!(notice.len(), 40);
    let at_41 = build_preview("x", 1, "p", 41);
    assert_eq!(at_41, format!("{notice}\n"));
    let at_42 = build_preview("x", 1, "p", 42);
    assert_eq!(at_42, format!("{notice}\n"));
    let at_44 = build_preview("x", 1, "p", 44);
    assert_eq!(at_44, format!("{notice}\n…"));
    assert!(at_44.len() <= 44);
    let at_45 = build_preview("x", 1, "p", 45);
    assert_eq!(at_45, format!("{notice}\n…\n"));
}
