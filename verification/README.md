# herald_mcserver

A web panel and MCP endpoint for running one Paper Minecraft server for
plugin debugging: it finds or installs Java and Paper, starts and stops the
server, follows its log, talks RCON, edits files inside the server's
directory, manages plugins, and keeps accounts, sessions, API keys and
invites.

Layout:

- `src/` — the verified library (Verus). Every rule of the panel lives here
  with its contract: account rules and lockout (`auth`), configuration,
  credentials, the RCON wire format (`rcon`), the Java/Paper runtime
  decisions and the task table (`runtime`), the server's state machine,
  log ring and `server.properties` handling (`mcserver`), and the HTTP/MCP
  decisions: sandboxed paths, trusted proxies, rate limiting, tool dispatch, argument
  summaries, line editing and plugin checks (`server`), and base64 (`b64`).
- `tests/` — tests of the library, run against the real outside crates.
- `app/` — the program around it: the axum server, SQLite, the child
  process, downloads, sockets and JSON. It hands the library plain values
  and acts on what comes back.
