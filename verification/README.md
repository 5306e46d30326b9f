# hexfish

The verified core of the HexFish game server: everything the server
decides without running the game engine, written in Verus with its
behaviour stated as `requires`/`ensures` contracts and proved.

## Layout

- `src/` — the verified library.
  - `text`, `numtext`: characters and strings, decimal and hexadecimal
    text, and integer parsing with the rules of `str::parse`.
  - `protocol`: the message and summary types of the WebSocket protocol,
    which handler a message goes to, and which view (live analysis or
    replay) it addresses.
  - `budget`: search budgets and how they are clamped.
  - `identity`, `auth`, `usernames`: who a socket belongs to — Clerk
    tokens and their authorized origins, anonymous session ids, display
    names and profile usernames.
  - `clock`, `chat`, `room`, `memroom`, `roomstore`: multiplayer rooms —
    seats, sockets, clocks, chat, outcomes, the public lobby and the
    standing rooms of the managed bot, both in memory and as the shared
    snapshots kept in Redis — and the handling of a socket's multiplayer
    commands up to the point where the game itself plays a move.
  - `redis`: connection settings from a `redis://` URL, the RESP encoding
    of commands, the reading of replies, and key names.
  - `replay`, `order`, `page`: replay ids, results and share slugs, the
    actions a replay log holds, the order replays and lobby rooms are
    listed in, and the administrative page of recent replays and lobbies.
  - `history`: a game's timeline — where undo and redo move the cursor,
    and which entries the game log shows.
  - `session`: what a game session refuses before the engine runs, where
    singleplayer undo may step back to, and how a message that arrives
    during a search is met.
  - `config`, `cpu`, `socket`, `rng`: server settings, CPU load sampling,
    why a socket ended, and random codes and names.
- `tests/` — tests of the library on concrete values.
- `app/` — the unverified shell: JSON wire types, files, environment
  settings, the Redis TCP connection and the machine clock.
