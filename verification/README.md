# mcp-semantic-router

A router between an MCP client and several MCP servers, all speaking JSON-RPC over stdio. The
client sees two tools: one that searches the tools of all servers by meaning, and one that reports
on the router. A tool that a search finds is presented under the name `server___tool`, and a call
under that name is passed on to the server.

- `src/` is the router's logic, verified with Verus: the messages, the decisions of the event loop,
  the index with its ranking and the form in which it is stored, the reading and writing of
  messages, and the laws that hold of them (most of them in `src/laws.rs`).
- `tests/` runs the logic together with `serde_json` and `dashmap`.
- `app/` is the program around it: processes, channels, the embedding model and the index file.

The verified code holds JSON as `serde_json::Value` and the connected servers in a
`dashmap::DashMap`. What it relies on of the two crates is stated in `src/json.rs` and
`src/registry.rs`. Embeddings and similarity scores are floating-point numbers; the verified code
holds them as bit patterns and orders them, and `app/` computes them.
