# lattice

A terminal tool for structured tasks made from templates: a template
declares the fields a task must fill and a MiniJinja prompt body; a task
fills the fields, is validated against the template, and its prompt is
rendered, previewed and saved to a Markdown file.

The library in `src/` is written in Verus: each public function states in
its contract what it returns, and Verus proves the code against it.

- `model`, `form`, `keybind`, `cursor`, `palette`, `layout`, `ui` — the
  TUI's state, its `update` function and what the screens show.
- `fields`, `validation`, `submit` — field kinds, value checks, task
  validation and the checks a form passes before it is saved.
- `prompt`, `filters` — the scope a prompt body sees, its filters, and
  rendering through MiniJinja.
- `openapi`, `openapi_editor`, `gherkin`, `code_blocks`, `sequence`,
  `preview` — the structured field editors and their text formats.
- `entities`, `ids`, `time`, `paths`, `cache`, `watch` — the stored
  entities, their identities, the on-disk layout, the LRU caches and what
  a file change means.
- `agents`, `runner`, `dispatch`, `derived` — agent manifests, the
  decisions of spawning and queueing runs, and derived values.

Calls into outside crates (uuid, time, regex, minijinja, serde_json, lru)
stand behind small trusted wrappers whose doc comments say what is
assumed of them.

`app/` holds the terminal program around the library: terminal I/O with
ratatui and crossterm, the file store, TOML and serde conversions.
`tests/` runs the library on concrete values.
