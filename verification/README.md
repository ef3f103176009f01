# docmost-local-mcp

An MCP server (over stdio) for self-hosted Docmost instances: it lists and
searches spaces and pages, renders pages and comments as Markdown, creates
and updates pages, comments and spaces from Markdown, moves and copies pages,
and signs in with Docmost's email/password login through a local sign-in page.

The logic is a library verified with Verus; the program around it does the
I/O.

## Layout

- `src/` — the verified library.
  - `position/` — base-62 fractional page positions (`generate_key_between`,
    `generate_jittered_key_between`) and their ordering laws (`laws.rs`).
  - `prosemirror/` — ProseMirror JSON to Markdown (`reader.rs`) and Markdown
    to ProseMirror JSON (`writer.rs`, over the events of `pulldown-cmark`,
    modelled in `model.rs`).
  - `docmost_client.rs` — which endpoint each operation posts to, with which
    payload; list replies; where a moved page goes; when to sign in again.
  - `server/` — the Markdown answers of the tools.
  - `auth/` — session reuse and expiry, re-login plans, the sign-in page and
    its replies, the token cookie and JWT expiry, the sign-in window helper's
    command line.
  - `storage/` — the state directory layout and the sealed credentials file
    (AES-256-GCM, base64).
  - `startup_config.rs`, `version.rs`, `types/`, `json.rs`, `text.rs`.
- `tests/` — tests of the library.
- `app/` — the program: the MCP server (`rmcp`), HTTP calls (`reqwest`), the
  local sign-in server (`axum`), files and keyring, and serde copies of the
  library's records.
