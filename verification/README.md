# kontur

Four-eyes review of what coding agents do. An agent's finished change waits at a
gate until two operators have each cast a signed verdict on exactly that diff;
a session ends with one merge, and with a hash-chained audit trail of every
decision.

The library under `src/` is written in Verus: its contracts say what each
operation returns and changes, and Verus proves them, together with the laws
that span operations (nothing is accepted without every key, a sealed verdict
shows nothing, an abandoned session merges nothing, the chain only grows).
Ed25519, SHA-256 and CBOR come from `ed25519-dalek`, `sha2` and `ciborium`; the
functions that call them are in `src/sign.rs` and `src/canonical.rs`, each with
what is taken on trust stated above it.

- `src/` the verified library
- `tests/` its tests
- `app/` streams, TLS, files, git and the agent's tool server around it
