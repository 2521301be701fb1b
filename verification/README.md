# qingjian

Parts of the logic of the Qingjian input method, written in Verus: every
function in `src/` carries a contract and is proved against it. The library
holds the server's session router, the cloud reply assembly, configuration
values, the candidate-window and status-bar decisions, dictionary file
handling and the text service's mode decisions. It does not hold the
candidate engine (segmentation, lookup, ranking and sentence conversion), the
settings window, or the drawing of the windows.

## Layout

- `src/text.rs` — character views of strings, Unicode white space and trimming.
- `src/mode_keys.rs`, `src/zhuyin.rs` — the prefix keys of the expression,
  question and continuation modes, and the zhuyin keys they must avoid.
- `src/prompt.rs` — the system prompts of the cloud model and the assembly of its
  reply: new words only, a sentence stripped of what repeats the text around the
  cursor, restatements dropped.
- `src/config.rs` — configuration values with their keys and labels, the cloud
  prediction policy, the scheme and its task-bar glyph.
- `src/router.rs` — the server's session table, focus and foreground, the status
  bar that follows the foreground session, and the clicks that wait for the
  right session to collect them.
- `src/status.rs`, `src/frame.rs`, `src/palette.rs`, `src/hits.rs`,
  `src/placement.rs` — what the status bar and the candidate window show, where
  they go, and what the mouse hits.
- `src/candidates.rs` — where the sentence candidate goes, and the case runs of
  typed input.
- `src/dictionaries.rs` — dictionary file names, the choice of files in a
  directory, which extra dictionaries load, their rows on the settings page,
  forget requests, the personal-word filter and paging.
- `src/guide.rs` — the key names of the usage guide.
- `src/tsf.rs` — the text service's mode decisions, its icon and poll beat.
- `src/reload.rs` — when the configuration and dictionaries are read again.
- `app/` — JSON in and out, the file system, and floating point.
- `tests/` — tests run against the compiled library.
