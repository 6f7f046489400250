# Schomburg

Schomburg is a local-first evidence engine. It keeps immutable Events and
append-only Annotations, lets connectors collect and factually present their
own evidence, and generates a disposable Record Folder of daily Markdown
records from what it holds. It never summarizes, interprets or infers.

## Layout

- `src/` is the library, written in Verus, which verifies all of it except
  the small wrappers marked `#[verifier::external_body]` (in `text`,
  `commit`, `cli`, `clock` and `serialization`); these call into std, `time`
  or `serde_json`, and their contracts are taken on trust from those crates'
  documentation and source:
  - `model`, `store`, `operations`: the evidence model, the append-only store
    and the operational state (discovered sources, connections, schedule and
    run statuses);
  - `connector`, `engine`: connector contracts, registration and validated
    collection;
  - `git`, `commit`: Git source identities, commit events and the reading of
    stored commit payloads;
  - `serialization`, `records`: the stored form of every record and the way
    back;
  - `presenter`, `clock`: daily records, their dates and their Markdown;
  - `agent`, `service`: discovery, consent, collection, Update Record and the
    scheduler's decisions;
  - `cli`, `host`: command parsing, command output and the shell protocol.
- `app/` is ordinary Rust around the library: SQLite persistence, the Git
  connector over `git2`, the Record Folder's files, the service with its
  scheduler thread, the command-line client and the JSON shell host.
- `tests/` exercises the library from outside.
