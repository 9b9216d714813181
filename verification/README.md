# lean

LEAN is a headless coding-agent runtime: it loads a `lean.yaml`
configuration, resolves a model provider and its credential, runs a task as
a session that emits JSONL events, and offers read-only workspace tools, a
command sandbox policy, per-session git worktrees and file-backed prompt
bundles.

## Layout

- `src/` is the library, verified with Verus. Each module states what its
  functions return in `requires`/`ensures` contracts over plain mathematical
  values (`Seq`, `Option`, views of the data types):
  - `config`, `yaml`: the configuration schema, read from a YAML document, and
    its validation rules.
  - `doctor`: the structured report of `lean doctor`.
  - `cli`: the command-line grammar, the help text, and the decisions of
    `lean run` (which configuration and provider to use, where to audit).
  - `provider`: the provider interface, the registry that resolves provider
    names and credentials, the mock provider, and the decisions of the
    OpenAI-compatible chat-completions exchange.
  - `session`: session ids and the event sequence of a run.
  - `events`: the JSONL event vocabulary.
  - `tool_use`, `json`: reading a model reply as a final answer or one tool
    request, from its JSON document.
  - `prompts`: prompt bundles, their checks and their rendering.
  - `read_tools`: line ranges, workspace containment and directory listings.
  - `sandbox`: the argv-prefix command policy.
  - `workspace`, `paths`: worktree planning and `/`-separated path handling.
  - `audit`, `catalog`, `text`: the audit log's directory, the built-in
    catalog, and string helpers.
- `app/` is the `lean` program: argument reading, files, processes, the
  environment, HTTP, and the serde forms of the library's values.
- `tests/` runs the library on concrete inputs.

Calls into `serde_yaml` and `serde_json` (parsing) and `String::push` are the
trusted boundary: small wrappers whose contracts are assumed.
