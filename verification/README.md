# neuralbridge_mcp

An MCP server for AI-driven Android automation, with its decision logic
verified by Verus.

- `src/` is the verified library:
  - `protocol/`: the wire framing (header codec, frames, a streaming framer),
    the connection policy (backoff, retries, what to do with each frame) and
    the plain message types.
  - `semantic/`: selector parsing and the element resolver (matching,
    scoring, ranking, hit testing).
  - `device/`: ADB argument building, input validation and output parsing,
    device discovery parsing, permission status, and the connection pool's
    reference counts.
  - `server/`: what the tools decide: parameter checking and mapping, error
    classification and messages, UI tree filtering and formatting, the
    accessibility audit, the scroll search, screenshot comparison, log
    compression, the event buffer, the tool catalog and the command line.
  - `text.rs`: the string and character utilities the rest is stated over.
- `app/` is the program around it: `main`, the MCP tool handlers, the TCP
  connection, running ADB, Protocol Buffers messages and image scaling.
- `tests/` exercises the library on concrete values.
