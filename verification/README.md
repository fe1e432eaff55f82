# piskvorky

The rules of an online game of five-in-a-row for two to five players, and the
decisions of its server and its browser client, as a library verified with Verus.

- `src/` — the library:
  - `board`, `line`, `play`: the field, straight lines of crofts, and what the
    server decides when a move arrives (turn order, used crofts, ties, win claims);
  - `detect`: how a client finds a win or a tie for the croft just clicked;
  - `properties`: what holds of these rules across moves and between client and
    server;
  - `pattern`, `user`, `session`, `invite`, `reply`: the checks on user fields,
    logins, sessions, roles and invitations, and the replies they give;
  - `notice`, `forms`, `client_game`, `client_pages`: the client's notifications,
    forms, game view and pages.
- `app/` — the HTTP server around the library (actix-web, PostgreSQL through
  sqlx, sessions in Redis).
- `tests/` — tests of the library on concrete values.
