# jev-ops

`jev-ops` analyzes logs and infrastructure signals with declarative diagnostic packs and
returns typed decisions (choice, score, yes/no) with confidences.

## Layout

- `src/` — the library, written in Verus with its contracts and proofs:
  - `packs/` — the manifest model, the pack rules (`validation`), manifest loading steps
    (`loader`), search order, candidate files, the pack search and the pack listing
    (`discovery`), the compiled-in packs (`builtin`) and starter packs (`scaffold`).
  - `security/` — size limits, binary and UTF-8 checks, pack name rules.
  - `engine/` — input acceptance and the analysis pipeline, including the check of a
    provider's answers against the pack's schema.
  - `inference/` — the offline provider, provider selection, and the live provider's
    questions, retries and score mapping.
  - `output/` — the terminal summary, the pack list and details, and the low-confidence report.
  - `named.rs` — values kept by name, each name once and in name order (decisions and
    answers).
  - `text.rs`, `error.rs`, `config.rs`, `cli.rs` — text helpers, errors and exit codes,
    settings, the pack subcommands.
- `app/main.rs` — the command: argument parsing, files, the environment, HTTP, YAML and
  JSON, printing.
- `tests/` — tests of the library.

## Exit codes

| Code | Meaning |
| :--- | :--- |
| 0 | success |
| 1 | internal or I/O error |
| 2 | invalid command-line usage |
| 3 | pack not found or invalid |
| 4 | invalid input |
| 5 | provider failure or no API key |
| 6 | provider answer breaks the pack schema |
