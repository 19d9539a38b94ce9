# lineprinter

Prints the lines of a terminal viewer for JSON, and proves with Verus what each line looks like.

- `src/lineprinter.rs`: a line and its parts, each with a contract that gives the exact text and the
  columns that it takes.
- `src/preview.rs`, `src/full_preview.rs`, `src/wider_preview.rs`: what a one-line preview of a
  container shows, when it shows all of the container, how cuts are marked, and that more room never
  makes it shorter.
- `src/layout.rs`: what holds of every line: it fits on the screen, focus changes only the style, and
  a line without room ends with `>`.
- `src/truncate.rs`, `src/truncatedstrview.rs`, `src/columns.rs`, `src/text.rs`: texts cut to a
  number of columns.
- `src/flatjson.rs`, `src/identifier.rs`, `src/viewer.rs`: documents, keys that need no quotes, and
  modes.
- `src/tuicontrol.rs`, `src/output.rs`: control of the terminal, and where text is printed to.
