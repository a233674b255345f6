# solidsync

The verified core of SolidSync, a desktop bridge from personal knowledge
management tools to a Solid Pod.

- `src/` — the library, checked by Verus: issuer normalisation, OIDC
  discovery and Dynamic Client Registration requests, PKCE (S256), DPoP proof
  construction (ES256), the bookkeeping of pending logins and the active
  session, callback parsing, and the Obsidian Local REST API connector's
  request shaping and response checks.
- `app/` — the asynchronous commands around it: HTTP exchanges with
  `reqwest`, shared state behind `tokio` locks, and serde copies of the
  library's types.
- `tests/` — tests of the library on concrete values.
