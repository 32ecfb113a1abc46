# traac

The verified core of traac, a small last.fm scrobbler window for Wayland
compositors. It follows an MPRIS media player, announces the playing track to
Last.fm, scrobbles it once it has played half its length or four minutes, and
shows the track, the players and the login state in a small overlay window.

## Layout

- `src/` — the library, verified with Verus:
  - `config.rs`: the configuration model, its defaults and the file's place;
  - `clock.rs`: instants of the wall clock and whole seconds between them;
  - `glob.rs`: `*` patterns for player names;
  - `players.rs`: track metadata, playback state and the choice of the player to follow;
  - `lastfm.rs`: Last.fm client handle, request building and track information;
  - `state.rs`: the application state and the cover image cache;
  - `update.rs`: the state machine (message in, state and work out);
  - `laws.rs`: properties that span several messages;
  - `screen.rs`: what the window shows for a state;
  - `layout.rs`: window corner and margins;
  - `events.rs`: player and tray events, the watcher's messages and the ignore patterns it is handed.
- `tests/` — tests of the library on concrete values.
- `app/` — the program: command line, configuration file I/O, D-Bus,
  HTTP requests, notifications and the iced window.
