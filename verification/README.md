# looplens

Persistent engineering memory for AI coding agents. A memory records verified
engineering experiences (the task, the attempts that failed, the decision that
worked, the lesson, and the evidence that verified it) and recalls the ones
relevant to a new task.

## Layout

- `src/` is the library, verified with Verus:
  - `text`, `tokens`: trimming, ordering and joining text; the search terms of a text.
  - `time`: instants and their RFC 3339 text (through `chrono`).
  - `model`, `experience`: the memory's records, refusal of bad learning
    requests, experience ids, and the migration of first-version records.
  - `recall`: matching experiences against a request, term statistics,
    stable ranking, and the summary of the best matches.
  - `engine`: the memory's layout on disk, initialization plans, learning.
  - `render`, `report`: `LOOP.md`, trajectory notes and the recall report.
  - `protocol`, `cli`: the decisions of the JSON-RPC, HTTP and command-line surfaces.
  - `laws`: properties that span several operations.
- `app/` is the program around it: the command line (with the `mcp` and
  `serve` subcommands), file and network I/O, YAML/TOML/JSON encoding, and the
  floating-point relevance scores.
- `tests/` exercises the library on concrete values.

## Running

One program serves every surface:

- `looplens init | recall | learn | project-context | export-loop` for developers;
- `looplens --root <project> mcp` for the JSON-RPC adapter on standard input and output;
- `looplens serve` for the HTTP adapter (`LOOPLENS_ROOT`, `LOOPLENS_BIND` and `PORT` choose
  the project and the address).
