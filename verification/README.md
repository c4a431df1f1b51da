# codex_text_tools

The verified text-handling core of a coding agent's native file tools and of
its compatibility diagnostics, written in Verus.

- `src/` is the library. Every function there carries a contract that Verus
  proves: paging through files (`file_read`, `file_read_pages`,
  `file_read_history`), structured
  edits and writes (`structured_file_change`, `line_endings`,
  `seek_sequence`), search output (`file_search`), tool descriptions and
  argument checks (`file_tools`), the tool-call loop detector
  (`tool_call_loop`, `tool_dispatch`), large-output spilling
  (`tool_output_spill`), user-input hooks (`user_input_request`), compaction
  guidance (`compaction_guidance`), and the compatibility recorder and report
  (`compatibility`, `category`, `text_integrity`, `recorder`, `report`,
  `diagnostics_command`). The calls into `sha1`, `sha2`,
  `serde_json`, `similar` and `chrono` sit behind small trusted wrappers whose
  doc comments say what is assumed of them.
- `app/` is the host: file system and process access, the recorder's writer
  thread, ZIP export and the command line. It hands the library plain values
  and drives its step functions.
- `tests/` exercises the library from outside.
