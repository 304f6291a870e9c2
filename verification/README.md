# mcp_servers

The logic of five Model Context Protocol servers, verified with Verus:

- **premiere** — SMPTE timecode with drop-frame counting (29.97 / 59.94 fps),
  offsets, sequence durations and the first steps of a frame-rate conform.
  The two conversions are proved to undo each other.
- **after_effects** — non-drop timecode, hex colours, expression snippets and
  effect templates; the command queue that connects a tool call to the panel
  running inside After Effects (newest panel wins, a command is handed out at
  most once, a result answers only its own command); the panel's endpoints.
- **fred** — percent-encoding and the URLs of the FRED API.
- **cfpb** — query strings, filters, paging, facet and trend shaping for the
  CFPB Consumer Complaint Database.
- **sec_edgar** — ticker to CIK resolution, annual XBRL fact selection, the
  concept fallback chains (as a state machine the caller drives), and filing
  history.

`src/` is the verified library. `app/` holds the rmcp tool surfaces, the HTTP
and key-value I/O, environment configuration and the floating-point steps;
it reaches outbound HTTP and the host bucket through the `Outbound` and
`BridgeHost` traits.

Verify with Verus on `src/lib.rs`; the tests under `tests/` run the library
with its outside crates linked.
