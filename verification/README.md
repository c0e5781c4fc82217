# linkport

A rule-based browser router: every clicked link is evaluated against an
ordered list of rules and opened in the browser the first matching rule
names, blocked, or handed to the default browser. A localhost portal
edits the rules and shows the link history.

Layout:

- `src/` — the verified library (Verus): configuration model and
  validation, the rule engine, command-template parsing, the hot path's
  launch decisions, redirect-chain bookkeeping, the portal's authorization,
  paths and tokens, update checks. `src/outside.rs` holds the few trusted
  wrappers around `url`, `globset`, `regex`, `chrono` and std.
- `tests/` — tests of the library.
- `app/` — the program around it: command line, files, processes, HTTP
  (axum portal, ureq requests), serialization.
