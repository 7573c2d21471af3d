# mindtape

A file-based task tracker powered by Typst: task lists are written in `.typ`
files, indexed into SQLite, queried, and edited in place.

The library under `src/` is verified with Verus. It holds the logic of the
tracker with its contracts and laws:

- `write`: editing a task's list item (checkbox, due and start dates, rank,
  tags) in the source text;
- `eval`: tasks, titles and bindings from what Typst evaluation produced;
- `filter_expr`: filter expressions translated into SQL conditions;
- `store`, `index`: the queries of the index and the shaping of their rows;
- `id`: task IDs (UUIDv7 and their base62 form);
- `config`, `watcher`, `indexer`, `paths`: configuration merging, the
  watcher's decisions, and indexing decisions;
- `cli`: argument handling and every output format of the commands;
- `text`: the string helpers the rest is built on.

Calls into outside crates (Typst's parser, evalexpr, uuid, base62, csv,
comfy-table, sha2, shellexpand, directories, `std::path`) go through small
trusted wrappers whose contracts say what the crates document.

`app/` is the program around the library: the command line, the SQLite
database, Typst evaluation, the file watcher and all printing.
