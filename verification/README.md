# memory_pipeline

A memory pipeline for a conversational assistant, verified with Verus.

Messages are buffered per session. After each reply the buffer is looked at: hard limits on tokens
and messages flush it at once, and below them a model is asked whether the conversation has reached a
boundary. A flush extracts an episode and atomic facts, then predictions, and every few episodes a
profile of the user. What is remembered is put before the next question as a block of text.

- `src/` is the library. It decides what is asked, what is written and what follows each outcome, and
  its contracts say so over plain sequences of characters. `src/turn.rs` describes the course
  of a turn; `src/turn_laws.rs`, `src/merger_laws.rs` and `src/formatter_laws.rs` state what holds of
  all courses, merges and blocks. `src/outside.rs` lists what is taken on trust from `std`, `chrono`
  and `uuid`.
- `app/` talks to models, the SQLite database and the embedding provider, and turns JSON into the
  library's types.
- `tests/` runs the library on concrete values.
