# orchustr

The verified core of the Orchustr orchestration toolkit, written in Verus.

## Layout

- `src/` — the library, verified with Verus:
  - `text` — character classes (`White_Space`, control characters) and
    the conversion between strings and character vectors.
  - `json` — `JsonValue`, a plain model of JSON values, and its compact
    text form (string escaping follows `serde_json`).
  - `prompt` — prompt templates: sanitising text, extracting `{{name}}`
    placeholders, rendering against a JSON object context.
  - `anchor` — cutting documents into chunks of whitespace-separated
    words with `document:index` ids.
  - `checkpoint` — storage keys, records and resume outcomes of paused
    graph runs.
  - `bridge` — the JSON entry points of the language bindings: prompt
    rendering, state normalisation, the crate catalog and the routing of
    `invoke_crate_json`.
  - `builders` — the objects the language bindings hand out: graph,
    pipeline, relay and colony builders, the tool registry (kept in name
    order), completion providers and prompt templates.
  - `tools` — the checks that precede every tool-crate call: which
    operations exist, which payload members they read, which provider is
    meant and whether it is configured or set up from the environment.
- `tests/` — the tests, run against the compiled library.
- `app/` — the program-facing edge: JSON text parsing through
  `serde_json`, serde and `thiserror` copies of the error types, the C ABI
  of the Dart binding, and the floating-point embedding used for ranking.

Each public function states its result in `ensures` over the spec
functions of its module; the `law_*` proof functions state what holds
across calls (sanitising is idempotent, chunking keeps every word, two
checkpoints of one graph never share a storage key, nor do checkpoints
of graphs whose ids hold no `:`, the catalog and the routing of
invocations agree, and so on).
