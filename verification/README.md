# cargo-timings

A terminal viewer for the `cargo-timing.html` report that `cargo build --timings`
writes: it lists the slowest compilation units, filtered and ordered as asked, or
shows them in an interactive view.

The library under `src/` is verified with Verus:

- `parser` reads the report's tables (cells taken with scraper) into a `Summary`
  of units with times in nanoseconds; the seconds texts are read as `f32` by the
  program around it (`time_texts` lists them) and handed back as readings; `timings` is a second reader that finds the
  tables with regular expressions and keeps every value as text.
- `sorting` filters, orders and truncates the units (a stable insertion sort),
  with proofs that the result is ordered, a permutation and stable.
- `cli::output` lays out the plain-text listing; `formaters` prints durations.
- `args` and `utils` are a hand-written command-line reader and its help text.
- `ui` holds the interactive view's state machine (`app_state`), its search line
  (`buffer_manager`, grapheme-aware), key handling, and what is drawn.
- `text` is the character-level toolkit the rest is built on.

`app/` is the program around it: clap options, file reading, the `f32` reading of
seconds, printing, and the ratatui/crossterm loop.  `tests/` holds the tests.
