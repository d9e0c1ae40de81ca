# jeanne_core

The core of Jeanne, a local-first knowledge vault: Markdown notes with YAML
front matter on disk, indexed in SQLite with an FTS5 full-text table, and a
file watcher that keeps the index in step with the files.

The library under `src/` is verified with Verus:

- `parser` — reading a note's front matter (defaults, the `type` alias) and body;
- `json` — the JSON record of a front matter, and reading a title from it;
- `sqlite` — the connection and the log of the calls made on it, which only
  its trusted wrappers extend, each by the call it makes;
- `storage` — the SQLite index: which statement, with which parameters, each
  operation hands to SQLite (stated over that log), and the search hits;
- `vault` — paths relative to the vault, planning and applying a reconciliation batch;
- `watcher` — the debouncing decisions of the watcher, with the law that a
  burst of changes is reconciled exactly once;
- `journal` — quick notes appended to the day's journal note;
- `access` — which files the desktop client may open;
- `text`, `paths` — whitespace, trimming, word counts, path names and extensions.

`app/` holds what talks to the outside world: the environment, the file
system, the clock, the `notify`/`tokio` event loop of the watcher, and the
commands of the desktop client.
