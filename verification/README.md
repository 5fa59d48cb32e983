# llm-assisted-api-debugging-lab

A deterministic diagnoser for failed API calls, verified with Verus.

A case (a sanitized HTTP request/response plus what the caller's network
stack observed) and its log text are normalized into `Evidence`; a
fixed-order rules engine turns evidence into a `Diagnosis`; renderers turn
a diagnosis into a short summary, a full report, or an LLM prompt whose
evidence lines are sanitized against prompt injection.

## Layout

- `src/text.rs` — character-level helpers (search, trim, decimal
  rendering and parsing, replacement), each proved against a spec function.
- `src/cases.rs` — the case model, known case names, fixture paths, the
  name check a loaded fixture must pass, and exit codes.
- `src/evidence.rs` — the evidence model, the log scanner (`parse_log`),
  `key=value` extraction, and the collector (`collect_evidence`) with its
  cross-source dedup.
- `src/prose.rs` — the per-rule prose table.
- `src/diagnose.rs` — the rules engine (`diagnose`) and its laws: rule
  selection depends only on which items are present, and a diagnosis
  surfaces only evidence it was given.
- `src/report.rs`, `src/llm_prompt.rs` — the renderers and the prompt
  sanitizer, with the laws that sanitized lines are single-line, free of
  control characters, backtick-escaped and capped.
- `app/main.rs` — the command-line program: argument parsing, reading
  fixture and log files, JSON layout of the prompt envelope.
- `tests/` — unit tests over the public API.
