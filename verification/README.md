# anemone_core

The verified core of a Windows overlay translator: settings, their limits and
normalisation, hotkeys, the hooked-game profiles, the translation backlog, the
command line, the overlay's state machine and rendering arithmetic, the
clipboard listener's bookkeeping and the benchmark statistics.

- `src/` is the library, verified by Verus. Each public function states what it
  returns or changes in its `ensures`; the `lemma_*` proof functions state the
  laws that relate several operations (a hotkey prints and parses back, switching
  the LLM provider and back restores its settings, previewing settings and then
  committing them equals committing them, and so on).
- `tests/` runs the library on concrete values.
- `app/` is the command-line program around the library: file and console I/O,
  `config.toml` through `serde`/`toml`, the sqlite translation cache, the
  floating-point settings and the benchmark clock and allocator.

The only trusted items are two wrappers around std: `String::push` and
`slice::sort_unstable`.

This build contains no translation engine. `translate` and `list-langs`
report that, and `file-trans` writes its output with a failure marker on every
line that needs translating; the engine, languages and credentials are not
resolved.
