//! Verified text-handling core of a coding agent's file tools and
//! compatibility diagnostics.
pub mod text;
pub mod category;
pub mod text_integrity;
pub mod seek_sequence;
pub mod line_endings;
pub mod structured_file_change;
pub mod digest;
pub mod tool_output_spill;
pub mod compatibility;
pub mod sorted_keys;
pub mod report;
pub mod tool_call_loop;
pub mod file_read;
pub mod file_read_pages;
pub mod file_read_history;
pub mod lines;
pub mod file_search;
pub mod file_tools;
pub mod compaction_guidance;
pub mod diagnostics_command;
pub mod user_input_request;
pub mod recorder;
pub mod tool_dispatch;
