# souls_lean

The context engine of the `souls_mcp` server, verified with Verus: the text
compactors (ANSI filter, comment stripping, blank-line and brace-run
collapsing, cross-file block deduplication, reversible CCR markers), the
token-budgeted reader, the LEAN search notation, symbol resolution, import
graphs and their blast radius, the IPC route contract, and the server's own
rules (tool routing, the path firewall, surgical edits, the read-only SQL
filter, the Markdown reports).

Layout:

- `src/` — the library. Every function carries a contract; the laws of the
  library are public proof functions named `law_*`. Calls into `regex`,
  `url`, `similar`, `sqlparser`, `tiktoken`, `dashmap` and `rustc-hash` go
  through small trusted wrappers whose contracts name what they return.
- `tests/` — executable tests of the library.
- `app/` — the MCP server: the stdin/stdout JSON-RPC loop, file and
  directory access, and the process runner, around the library.
