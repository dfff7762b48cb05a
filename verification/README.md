# JIRA MCP Server

An AI-friendly JIRA integration server for the Model Context Protocol
(MCP). Clients search, read and update JIRA issues with semantic parameters
("story", "open", "me") and never write JQL. Todos are kept as markdown
checkboxes in issue descriptions, and the time worked on them is logged.

## Layout

- `src/` is the library, written in Verus and verified. It holds the
  semantic mapping to JQL, the metadata cache with its time-to-live, the
  configuration checks, error classification, the todo tracker with its
  work sessions, and, for every tool, its parameter checks, decisions and
  answers. Each public function states what it returns in its contract.
  Proof functions named `law_*` state the properties that hold across
  calls. For example, a cache read right after a write returns what was
  written, and an allowed request never takes a window over its limit.
- `app/` is the server program: `main`, the environment and file
  settings, the JIRA client calls (gouqi), and the MCP tool surface. The
  MCP and serde types in `app/wire.rs` are serialisable copies of the
  library's types.
- `tests/` holds the tests; they run against the compiled library.

## Time

The cache and the uptime use a monotonic clock (`clock::MonotonicClock`),
read in nanoseconds since the clock was started. Worklog start times and
sprint dates use the UTC calendar clock, read (like parsed ISO 8601 dates)
as nanoseconds since the Unix epoch. Each cache operation that reads the
clock has a `*_at` variant that takes the time as an argument, and the
exact contracts are stated on those variants.

## Dependencies

- `chrono`, `base64` and `time` are called from the library through small
  wrappers whose contracts are trusted.
- `gouqi`, `tokio`, `serde`, `serde_json`, `toml`, `schemars`, `tracing`
  and `anyhow` serve `app/`.
- `pulseengine-mcp-server` and `pulseengine-mcp-macros` provide the MCP
  server and its `#[mcp_server]` / `#[mcp_tools]` macros.
- `pulseengine-mcp-protocol` and `async-trait` are named by the code
  that those macros generate (`#[async_trait::async_trait]` and the
  protocol types), not by any hand-written line.

## Running

Set `JIRA_URL`, `JIRA_AUTH_TYPE` (`pat`, `basic`, `bearer` or
`anonymous`) and the matching credentials (`JIRA_TOKEN`, or
`JIRA_USERNAME` and `JIRA_PASSWORD`). Optional settings are
`JIRA_CACHE_TTL`, `JIRA_MAX_RESULTS`, `JIRA_REQUEST_TIMEOUT` and
`JIRA_RATE_LIMIT`. Then run the server; it speaks MCP over standard input
and output.
