# eg-gui

A local web GUI over an ExcelGRAG corpus. The decisions the server makes
are a verified library; the server itself (HTTP, WebSocket, file
watching, the engine's crates) is a thin program around it.

## Layout

```
src/        the verified library
  text.rs       decimal rendering, prefixes, string order
  paths.rs      file names, extensions and debug quoting, from std
  corpus.rs     the corpus listing, and how a request names a workbook
  graph.rs      a stored graph as plain values; sheet names, parents
  sheets.rs     the sheet layer, ordered by name
  tally.rs      counts per kind
  dto.rs        a graph flattened for the browser; one node's details
  api.rs        failures, parameter defaults, static routing, MIME types
  retrieve.rs   the links a retrieved node's role draws
  events.rs     the WebSocket's events and how a connection reacts
  watch.rs      which notices matter, debouncing, snapshot diffs
  index_job.rs  the index-job slot and the job's stage machine
app/        the server: axum routes, the socket, the watcher, and the
            engine calls each index stage makes
tests/      the library's tests
```

The server binds to `127.0.0.1` only.
