# aperio

The logic of the Aperio desktop application, verified with Verus.

- `src/json.rs` — JSON documents, their mathematical model, and the merge of a
  patch into a document, with its laws.
- `src/config.rs` — the configuration types and the repair of a user
  configuration from the defaults.
- `src/python.rs` — the `uv` command lines that provision the embedded Python
  runtime, the reading of command output, the `pyproject.toml` update and the
  start-up install decision.
- `src/stream.rs` — the framing of encoded video buffers for WebSocket
  clients, frame timestamps and the frame producer's decisions.
- `src/ws.rs` — the decisions of a client connection.
- `src/text.rs` — white space trimming, prefix and suffix tests, decimal
  formatting.
- `src/commands.rs` — the front end's `greet` command.

`app/` holds the Tauri application around the library: file system access,
the embedded Python interpreter (pyo3), the GStreamer pipeline and the
WebSocket server. It converts between outside types and the library's types
and runs the loops whose decisions the library makes.
