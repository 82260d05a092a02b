# hitair

A music-guessing game: a hidden song is revealed in growing snippets and the
player races to name it, solo or in an online lobby.

The rules of the game live in a library whose behaviour is stated in
`requires` / `ensures` contracts and proved with Verus:

- `game`: rounds, clip schedules, guess matching, scoring, song de-duplication;
- `lobby`: multiplayer scoring, standings and their ranking;
- `realtime`: the lobby channel's roster, kept in presence-key order;
- `profile`: the player's lifetime statistics and recent games;
- `anime`: the anime-opening pool and how a theme becomes a playable round;
- `session`: the whole app state machine (screens, keys, clicks, search,
  rounds, lobbies), as functions from a state and an event to the next state
  and the effects to perform;
- `update`, `changelog`, `config`, `deezer`, `supa`, `text`, `ui`, `audio`:
  version ordering, release assets and archives, the bundled changelog,
  categories, API records, lobby codes, text handling and display helpers.

`app/` is a small terminal frontend around the library: it reads keys from
standard input, prints the screen, and performs the effects the session asks
for (HTTP requests, the lobby channel, saving the profile, installing an
update).

`tests/` holds scenario tests of the library.
