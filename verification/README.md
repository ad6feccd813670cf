# mikan_judge

The core of an online judge, verified with Verus.

- `src/` is the verified library: languages, verdicts and their database
  names (`types`), contest scheduling (`schedule`), problems and their test
  files (`problem`), the sandbox policy (`sandbox`), the judging state of a
  submission (`worker`), and the pages' checks and display data
  (`api::handlers`, with the standings in `api::standings`).
- `tests/` runs the library on concrete values.
- `app/` is the server around it: axum handlers, PostgreSQL access, sessions,
  the fork/exec sandbox with its seccomp filter, and the judge workers.
