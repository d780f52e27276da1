# EdgeReplica

Per-page SQLite sync between a CLI client and an edge worker, authenticated
with macaroons, with the logic verified in Verus.

- `src/` is the library: tokens, storage rules, the admin and sync services,
  the sync state machines of both sides, routing and wire framing. Every
  function is proved against its contract; the calls into outside crates
  (macaroons, hashing, base64, protobuf fields, header values, randomness)
  stand behind wrappers whose doc comments say what is taken on trust.
- `app/` is the program around it: the `edgereplica` command line, the worker's
  entry points, D1 and the durable object.
- `tests/` run the library against the real crates.

A sync compares pages by their BLAKE3 digests. On a push the client announces
every page and sends those that the server asks for; on a pull the server sends
what the client lacks or holds otherwise. `law_push_session` states what the
server holds after a push, and `law_pull_session` which pages a pull sends; the
other `law_` functions state what holds of tokens, accounts and databases.
