# agl_core

The core of an agent runtime, written in Verus: executable Rust whose contracts
are proved.

- `src/` is the verified library.
  - Identities, bounded content, canonical JSON, package trees, tool and
    extension definitions stand at the top level.
  - `agent/` holds runs, their operations and state machines, the compaction of
    their context, and semantic memory with its text formats.
  - `implementation_plan/` holds handoff documents between planning and
    implementation: their grammar, their validation and their canonical bytes.
  - `tools/` holds the decisions of the built-in tools: reading, searching and
    patching files, running processes and shells, copy-on-write workspaces,
    permissions, the store, the outbox and repository artifacts.
- `tests/` runs the library on concrete values.
- `app/` is ordinary Rust around the library: wire forms with `serde`, and the
  file system under the tools.

Values are described by what they hold. Types with text or collections in them
implement `value::Abstract`, whose `abs` is the content that contracts speak of.
Calls into other crates (`serde_json`, `jsonschema`, `sha2`, `uuid`, `semver`)
and into parts of `std` stand behind small functions whose contracts are
believed; each says so in its doc comment.

What holds of the library as a whole is stated as public proof functions. Those
of the larger parts have files of their own: `agent/fsm_laws.rs`,
`agent/presentation_laws.rs`, `agent/memory_laws.rs`, `agent/entry_laws.rs`,
`agent/corpus_laws.rs` and `tools/commit_laws.rs`.
