# smolcloud

A small notes cloud: a server that keeps notes in an object bucket behind
token authentication, and a command-line client.

- `src/` is the verified library (Verus): note identifiers and their text,
  bucket metadata, what the note service stores and answers, token claims
  and their JSON payload, HS256 tokens (through `jsonwebtoken`), the login
  and refresh-token flows, bearer header parsing, and page values.
- `app/` is the unverified shell: the axum routes and extractors, the
  Cloudflare Workers bindings (R2, KV, secrets), the HTTP client and the CLI.
  It performs the I/O that the library's functions ask for and hands their
  results back.
- `tests/` exercises the library on concrete values.
