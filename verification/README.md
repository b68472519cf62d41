# cadence

The library behind a prompt manager: prompts with variants and tags,
full-text search with highlighted snippets, manual and smart collections,
playbooks of steps with a running session, settings and keyboard shortcuts,
JSON and Markdown import and export, and the local HTTP API's rules
(bearer tokens, start-up and enable decisions, the change poller).

Everything under `src/` is verified with Verus.

* `db/sql.rs` is the only door to SQLite. A `Db` wraps a `rusqlite`
  connection together with a ghost record of every statement handed to it:
  its text, its parameters, what the library needed from it (rows of given
  column kinds, a changed row, a batch that ran) and what came back (rows,
  a count of changed rows, or a failure). Every service states, over that
  record, which statements it runs with which parameters, how its result
  follows from the rows SQLite answered, and that it succeeds whenever every
  statement answered what was needed (`all_met`), apart from the errors the
  library raises itself, which are stated case by case.
* `services/transaction.rs` states the shape of a write transaction
  (`BEGIN IMMEDIATE` first; `COMMIT` last on success, with no refused write
  in between; `ROLLBACK` last on failure), and every write of the services
  is proved to have it.
* `json.rs` holds the JSON documents the library reads and writes: the
  parse and the pretty-printer are `serde_json`'s, named by
  `json_document` and `json_pretty`; reading the import and smart-filter
  documents, and building the export document, are verified over them.
* `services/prompt_service.rs` states what refreshing a prompt's search
  entry writes (`indexed`), and which operations refresh it.
* `text.rs`, `search_window.rs`, `assoc.rs`, `poller.rs` and `api/` hold the
  pure logic: tokenising, snippets, front matter, key-value stores, the
  poller's state machine, token checks.

`app/` is the program around the library: opening the database file, the
HTTP server and its routes, serde copies of the library's types, and the
poller's timer.

`tests/` runs the library against in-memory SQLite databases.
