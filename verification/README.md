# isekai

The logic behind the Isekai desktop companion for Sky: Children of the Light,
written in Verus and proved against its contracts.

- `src/text.rs` — character-level text operations (trim, ASCII lower case,
  `str::lines`, splitting, decimal numbers) proved against `Seq<char>` specs.
- `src/process.rs` — normalising the process names to look for, matching a
  process against them, reading the output of `ps` and `tasklist`.
- `src/discord.rs` — presence fields within Discord's byte limit, the client id
  in use, and the activity sent to Discord.
- `src/rpc.rs` — the Discord connection manager as a state machine: it names
  each action on the IPC client, the caller performs it and hands back the
  result; laws about success, errors, clearing and termination.
- `src/presence.rs`, `src/planner.rs` — what the presence shows: events, candle
  runs, routes, goals, the overlay or a preset.
- `src/release.rs` — the release-notes request and what is read from the answer.
- `app/` — ordinary Rust around the library: running commands, the Discord IPC
  client, HTTP, and JSON conversion.
