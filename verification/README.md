# firm_remote_mcp

A remote MCP server for Firm workspaces, backed by a Git repository and
protected by OAuth 2.0 (authorization code flow with PKCE, JWT access and
refresh tokens).

## Layout

- `src/` — the verified library (Verus):
  - `auth.rs` — OAuth state, `/authorize` and `/token` decisions, bearer
    checks, discovery documents, client registration, and the laws of the
    code flow.
  - `auth/codes.rs` — the store of outstanding authorization codes
    (single use, sixty-second lifetime, background sweep).
  - `auth/helpers.rs` — random codes, PKCE (S256), redirect URLs and replies.
  - `auth/jwt.rs` — HS256 access/refresh tokens and the claims reader.
  - `config.rs` — configuration rules for the environment variables.
  - `git.rs` — git references, errors and the decisions of each git step.
  - `server.rs` — commit messages, warnings and follow-ups of the MCP tools.
- `app/` — the HTTP server (axum), git I/O (git2) and the MCP tool handlers.
- `tests/` — tests of the library.

## Configuration

`REPO_URL`, `GITHUB_TOKEN`, `OAUTH_CLIENT_ID`, `OAUTH_CLIENT_SECRET`,
`JWT_SIGNING_KEY` and `SERVER_URL` are required; `BRANCH` (default `mcp`),
`PORT` (default 8080), `WORKSPACE_SUBDIR` and `ALLOWED_REDIRECT_URIS`
(comma-separated, empty when unset) are optional.
