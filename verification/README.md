# codex_config_schema

Tooling for the JSON Schema of Codex's `config.toml`, written in Verus.

The library (`src/`) holds the logic, each function with a contract that
Verus proves:

- `json` – an ordered JSON model (`JsonValue`, `JsonMap`) and its
  mathematical view `Json`.
- `json_sort` – the "house style" key ordering (`key_rank`,
  `sort_json_keys`), with laws: idempotence, the shape of the result, and
  that every value is kept under its key.
- `ordering` – the property orders for Tombi's "schema" sorting strategy
  and the functions that apply them.
- `schema_transforms` – flattening of the MCP server configuration's
  transport variants into one object schema.
- `features` – feature flags: specs, the `Features` set, legacy aliases,
  `[features]` tables and how a configuration, a profile and overrides
  combine.
- `generate` – `SchemaConfig`, the `$id` URL, model examples, feature
  properties and the assembly of the finished schema.
- `git_config` – parsing of `.git/config`, of the origin's `HEAD` file and
  of a worktree's `.git` file.
- `cli` – the `-o`/`--out` argument.
- `text`, `sorting` – character-level string helpers and a stable sort,
  both specified over sequences.

`app/` is the command-line program: it reads arguments and git files,
runs schemars on the configuration type, converts between `serde_json`
values and the library's `JsonValue`, and writes the schema file.
