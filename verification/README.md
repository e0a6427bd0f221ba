# Barnacle

Barnacle is a Discord bot for World of Warships players: a ship silhouette guessing game, Clan
Battle sign-up posts with a rehearsal mode, and Join to Create voice rooms.

The decisions the bot makes are a library verified with Verus; the bot around it is ordinary
Rust that talks to Discord and SQLite.

## Layout

- `src/` is the verified library. Each public function states what it returns in its contract,
  and the laws that tie functions together are public proof functions whose names begin with
  `law_`.
  - `schedule`: civil days, Clan Battle nights and their hours, season ranges, rehearsal ranges.
  - `attendance`, `attendance_store`: which sign-up posts go up, close and come down, what a
    click records, how a season is read back and edited.
  - `table`, `ships`, `solves`, `lookup`, `info`: the guessing game's rounds, ships and
    leaderboards.
  - `voice`, `voice_store`, `voice_text`: Join to Create rooms, their numbers and overwrites.
  - `wiring`, `replies`, `failure`, `text`, `render`: component IDs, pings, refusals, failure
    reports and every reply's text.
  - `config`, `logging`, `startup`: settings and start-up checks.
- `app/` is the bot: the Discord client, the SQLite stores, the timer loops and the command
  handlers. It hands plain values to the library and carries out what it decides.
- `tests/` runs the library on concrete values.
