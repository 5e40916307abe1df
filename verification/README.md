# powerline status line, verified

A powerline-style status line for a coding assistant's terminal client: it
reads the statusline JSON the host writes to stdin and prints an ANSI bar,
plus an OSC 9;4 progress sequence for the terminal.

The library in `src/` is checked with Verus: every function there carries a
`requires`/`ensures` contract that the verifier proves, and the properties
that span functions (the right bar ending at the terminal edge, the module
list round trip, the width a bar occupies, theme fallbacks) are proof
functions beside the code they speak of.

- `src/payload.rs` — the payload as the bar reads it.
- `src/segments.rs` — the module registry, `--modules` parsing, and every
  segment's text and colors.
- `src/render.rs` — segments to an ANSI bar, left- or right-aligned, and the
  visible width of the result.
- `src/theme.rs` — the vendored palettes, hex colors, custom themes.
- `src/progress.rs` — the OSC 9;4 progress sequence.
- `src/terminal.rs` — reading `ps`/`stty` output for the terminal width.
- `src/text.rs` — character-level building blocks (decimal numerals, trim,
  split, prefix and substring tests).
- `src/lib.rs` — `run`: flags, payload and process state in, output out.

`app/main.rs` is the binary around it: argument parsing (clap), decoding the
JSON (serde_json) and `theme.yaml` (serde_norway), the git files and the
terminal, and the two readouts whose numbers are floating point (session
cost, remaining rate-limit budget).
