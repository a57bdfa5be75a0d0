# game_server

A small multiplayer game server speaking a binary protocol over WebSockets.

- `src/` is the verified library:
  - `bytes` — big-endian reads and little-endian writes of 32-bit fields;
  - `ws_messages` — the client protocol: message types, request decoding,
    and the binary responses;
  - `messages` — the first, two-message version of the protocol;
  - `game_state` — the game world: objects by id, the requests that change
    it, and one frame's movement;
  - `server` — what a connection does with each client message, and the
    listen address from the configuration;
  - `handshake` — a hand-written WebSocket opening handshake;
  - `ws_frame` — the link to `tungstenite` messages.
- `app/` holds the program: sockets, threads, channels, timing and the
  floating-point part of movement.
- `tests/` exercises the library on concrete values.
