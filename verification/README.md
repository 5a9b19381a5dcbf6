# nommie

The rules of Nomination Whist as played on the Nommie server, as a Verus
library: every function states its behaviour in `requires` / `ensures` and is
proved against it.

- `src/` — the verified library: the round schedule and seating (`rules`),
  card strings (`cards`, `comparison`), bids and the deck (`bidding`), tricks
  (`tricks`), scoring (`scoring`), the lobby and game phases (`game`), the
  checks on bid, trump and play requests (`play`), dealing and moving from
  round to round (`progress`), what players are shown (`summary`), the AI
  players' choices (`ai`), and token claims and database URLs (`auth`).
- `tests/` — tests of the library on concrete games.
- `app/` — the HTTP server around the library (actix-web, sea-orm, JWT): it
  reads the database, asks the library to decide, and stores the outcome.
