# festejar

The logic of the FESTEJAR karaoke host as a Verus library: the room state
and its queue and player, the playlist store, the session history, the
playlist importers (pasted text, karaoke playlist files, Spotify embed
pages), the YouTube search helpers and cache, and the host's command
handling. Every function states its behaviour in `requires` / `ensures`
and is proved by Verus; the laws that tie several functions together are
public proof functions named `law_*`.

- `src/` — the verified library. Calls into outside crates (clock, UUIDs,
  SHA-256, hex, URL and JSON parsing) go through a few trusted wrappers in
  `src/external.rs`, `src/json.rs` and next to their single callers.
- `tests/` — tests on concrete values.
- `app/` — the host around the library: serde copies of the library's
  types, files on disk, the network (YouTube, Spotify) and the handlers
  that run them. What is searched, served from the cache, queued,
  imported and stored is decided by the library (`SearchCache::begin_search`
  and `finish_search`, `process_command`, the importers, the store); the
  handlers do the network and disk work in between and report its
  failures.
