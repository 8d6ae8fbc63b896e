# eliza

The ELIZA conversation engine of Creative Computing, verified with Verus,
with a terminal front end.

- `src/lib.rs` — `Eliza` and `Outcome`; the model of one turn (`turn`) that
  `Eliza::respond` is proved to follow, and the proof that every answer is
  well-formed UTF-8.
- `src/engine.rs` — cleaning a line, finding its keyword, conjugating the
  text after it.
- `src/text.rs` — byte-level helpers (matching, ASCII case, dropping bytes).
- `src/tables.rs` — keywords, conjugation pairs, replies and reply blocks.
- `src/utf8_facts.rs` — why the engine's byte edits keep text well-formed.
- `src/wrap.rs` — where the screen breaks a reply into lines.
- `src/terminal.rs` — what each key does to the line being typed, what a
  submitted line adds to the transcript, and how far the transcript scrolls.
- `src/laws.rs` — properties of every conversation: stopping, repetition,
  rotation of replies, validity of the state, no new characters in answers.
- `app/main.rs` — the terminal user interface (ratatui, crossterm); with
  `--cli` it reads lines from standard input and prints each line after
  "? " with the answer underneath.
- `tests/` — conversations and the engine's steps on concrete lines.
