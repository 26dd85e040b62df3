# ace

Verified game logic of the Tengchong "baifen" (hundred points) card game,
written in Verus.

- `src/sorting.rs` — stable sorting stated as insertion sort, with the
  permutation and ordering lemmas.
- `src/clock.rs` — the system clock, read through std.
- `src/client/` — the single-machine game: card types (`types`), card order
  and the fresh deck (`card`), the table engine (`engine`) and the bot (`bot`).
- `src/server/` — the server side: cards and their order (`cards`), game rooms
  (`game`), lobby records (`state`), room operations (`room`), accounts
  (`auth`, `user`), password hashes and session tokens (`credentials`, over
  bcrypt and jsonwebtoken), table-message replies (`ws`), decimal numerals
  (`text`) and fresh ids and timestamps (`stamps`).
- `app/` — the HTTP and WebSocket server around the library (axum, tokio,
  locks and JSON).
- `tests/` — tests run against the compiled library.
