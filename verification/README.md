# wren

The logic of a local desktop assistant that talks to Ollama, with its
contracts proved by Verus.

- `src/` is the verified library: message routing and model capability
  filtering, error classification for Ollama replies, the conversation
  history and its reset epochs, the tool catalog, tool routing and the
  approval rule for destructive tools, the decisions of the tool-calling
  loop, IP address literals and the fetch-host policy, article and
  tool-output budgets, directory listings, the formatting of the desktop
  tools (foreground window, window list, monitors), the MCP frame decoding
  and server registry, the model-pull session and whisper-download
  progress, the voice session state, and the speech script builders.
  `src/json.rs` holds the `serde_json` calls the library makes, one
  trusted item each; which members are read is verified code.
- `tests/` runs the library on concrete values.
- `app/` is the runtime around it: HTTP streaming, the requests, waits and
  dispatches of the tool loop and of a model pull, file, process,
  clipboard and network I/O, the Win32 desktop enumeration (on Windows;
  elsewhere the desktop tools report that they need it), the MCP stdio
  client, audio capture and transcription, and the serialisable copies of
  the library's types.
