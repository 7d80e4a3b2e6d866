# bang

A self-hostable server for the card game Bang!, written in Verus.

- `src/` is the verified library:
  - `game.rs`: cards, characters, attributes, players and the deck they draw from;
  - `setup.rs`: the pile a fresh deck is made of;
  - `http.rs`: HTTP methods, status codes, headers, requests and the bytes a response is sent as;
  - `server.rs`: WebSocket frames (writing and reading them), the opening handshake, and the
    worker pool's spawning rule;
  - `text.rs`: small helpers that build strings and byte strings.
- `tests/` runs the library on concrete values.
- `app/` is the program around it: argument handling, sockets, threads and the terminal.
