# rsrpc

A Discord Rich Presence server (IPC and WebSocket transports, a JSON and a
MessagePack bridge for web clients, and game detection from running
processes), with its core verified in Verus.

- `src/` is the verified library: the IPC frame format and the IPC and
  WebSocket session state machines (`transports`), bridge protocol selection
  (`protocol`), the server's handling of transport events (`server`), the
  bridge's store of last activities (`bridge`), game detection and its cache
  (`process`), the protocol's types (`types`) and configuration (`config`).
  `text` and `keyed` hold the character-sequence and key/value-sequence
  models the contracts are written in.
- `app/` is the program around it: command-line parsing, the async runtime,
  sockets, named pipes, HTTP, process enumeration, and the JSON/MessagePack
  encodings of the library's types.
- `tests/` runs the library on concrete values.
