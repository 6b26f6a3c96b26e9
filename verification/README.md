# graph_server

The decision logic of the Azisaba Graph API server, verified with Verus, and
the server around it.

- `src/` is the verified library. Every request the API answers is first
  decided here: which key may do what (`auth`), how a request body or query is
  read and checked (`api_keys`, `crawls`, `patch_notes`, `players`,
  `punishments`), how database rows become API resources (`records`), how
  pages and cursors work (`pagination`, `filters`), which stream events a key
  sees and how the Redis listener backs off (`stream`), how the MCP tools and
  resources are routed (`mcp`), which PlayerDB answers are accepted
  (`mojang`), and how an SSE body is cut into events (`sse`). Calls into
  `base64`, `sha2`, `subtle`, `getrandom`, `uuid` and `chrono` go through the
  trusted wrappers of `encoding`.
- `app/` is the server: configuration, the MySQL and Redis connections, the
  HTTP routes, the PlayerDB client, the event stream, and the JSON forms of
  the library's types. It performs the reads and writes the library plans,
  with three exceptions:
  - the MCP server is not served: its decisions are in `src/mcp.rs`, but no
    MCP transport is among this build's crates, so no route leads there;
  - a patch note with images is answered with an internal error instead of
    being stored, since no S3 client is among this build's crates;
  - patch note targets and categories are not checked against the API's
    enumerations, which live in the OpenAPI contract, not part of this tree
    (`validate_patch_note` takes the outcome of that check as an argument).
- IP targets of punishments are read with `std::net` in `app/`, which the
  library may not use; the library takes the parsed address and its text.
- `tests/` runs the library on concrete values.
