# aardbin

A self-hosted, single-user personal bin: text records encrypted at rest
with AES-256-GCM, small attachments on disk, a stateless HMAC-signed session
cookie, a login rate limiter, a JSON API and a command-line client.

## Layout

- `src/` — the library, verified with Verus. Every function states in its
  contract what it returns; the properties that span several functions are
  public proof functions named `law_*`.
  - `config` — settings from the environment's raw values, with defaults
  - `crypto`, `plaintext`, `json` — the record blob (nonce, ciphertext, tag),
    the JSON plaintext inside it, and the JSON reader behind it
  - `session` — issuing and validating session tokens and cookies
  - `ratelimit`, `access` — the sliding-window limiter and the login and API
    key checks that share it
  - `guard` — the session guard and the cross-site `POST` guard
  - `form` — reading a record submission under the size limits
  - `views`, `saving` — paging, record cards, the edit form, the JSON
    bodies, and the steps of saving a record
  - `files`, `render`, `i18n`, `cli` — storage paths and download headers,
    page text, languages, and the client's decisions
  - `text`, `encoding`, `clock` — characters, hex, and the clocks
- `app/` — the server (axum, SQLite, templates, file I/O) and the client
  (`aardbin-cli`, reqwest), around the library.
- `tests/` — tests of the library.
