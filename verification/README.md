# textractor_bridge

A media bridge for Textractor: the extension forwards selected text-thread lines over
a local named pipe, and the server keeps a line history, records audio and
screenshots for each line, and serves a browser UI that prepares Anki cards.

`src/` is the verified library (Verus). It holds the protocol (frame format, pipe
name, line events), the history with its append-only log, the per-line audio
sessions over rolling capture buffers, WAV encoding, decoding and slicing, activity
trimming, asset metadata and expiry, the screenshot checks and pixel conversions,
request routing rules, address and `netstat` handling, the tray loop, and the
server state (`state.rs`) whose every step says what it does to the history, the
live events and the log.

`app/` is the server program around the library: configuration and history files,
asset files, FFmpeg, the HTTP/SSE and WebSocket servers and the pipe listener.

`tests/` exercises the library from outside.
