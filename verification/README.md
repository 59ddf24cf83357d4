# rift

The core of Rift, a YouTube Music desktop player, as a library whose
behaviour is stated in contracts and proved with Verus.

## Layout

- `src/` — the verified library.
  - `model` — tracks, playlists, the library and the records shown to the
    interface.
  - `player` — the queue and its navigation (`nav`), queue edits (`queue`),
    the playback transitions driven by fetch results, position ticks and
    crossfades (`playback`), and the laws that tie them together (`laws`).
  - `library` — likes, recently played, and playlist editing.
  - `downloads`, `offline` — offline-copy bookkeeping, which playlists are
    kept offline, and the retry schedule for downloads they depend on.
  - `catalog` — conversion of catalog entries into tracks, album and artist
    pages, and the rule deciding what counts as an audio track.
  - `import` — playlist links and IDs, export file names, import results.
  - `updates` — version comparison and the update status.
  - `fetch` — stream routing, ranged chunk downloads, and locating and
    invoking yt-dlp.
  - `presence` — the Discord presence snapshot and the OS media session.
  - `display`, `collections`, `reorder`, `controls` — text, pinning,
    drag-to-reorder, keyboard-shortcut and track-row rules of the interface.
  - `settings`, `text`, `ids`, `random` — smaller helpers.
- `tests/` — tests run against the compiled library.
- `app/` — the program around it: files on disk, JSON shapes, background
  writes, the launch snapshot, the player's command handlers and fetch
  threads, yt-dlp, offline download passes, and a line-based console that
  drives them.

Times are whole milliseconds inside the library; the program converts from
and to the seconds the interface uses.
