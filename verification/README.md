# manhua_live_tracker

A small server that records which manhua chapters its user reads on which
device, and resolves each reading event to a series.

- `src/` is the verified library (Verus): the chapter-URL grammar and slug
  titles (`static_files`, `decimal`), fuzzy title matching (`similarity`),
  the event resolver as a state machine with its laws (`process`), the
  token check (`middleware`), the handlers' replies (`routes`), the one
  statement the database layer builds (`db`) and the records (`types`).
- `app/` is the program around it: the SQLite database (rusqlite), the HTTP
  server (axum, TLS), logging, and the worker that drives the resolver
  against the database.
- `tests/` exercise the library, including a comparison of the URL grammar
  with the `regex` crate.
