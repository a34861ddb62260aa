# rss_reader

A terminal RSS/Atom reader whose core is verified with Verus.

## Layout

- `src/` — the verified library:
  - `text` — decimal notation, trimming, line splitting, substring search.
  - `model` — the persisted state (feeds keyed by URL, entries, seen keys).
  - `config` — the feed list from command-line URLs, a feeds file or the defaults.
  - `date_guard` — which fetched bytes can be handed to `feedparser-rs`, whose 0.7.2 release
    panics on some seven-byte date texts; documents it cannot clear are reported as a parse error.
  - `feed` — feed documents as read from `feedparser-rs`, entry keys, article extraction with `scraper`.
  - `update` — folding a fetched feed into the state: bounded de-duplication by entry key.
  - `store` — accepting a state read back from disk.
  - `order` — lexicographic text order and a stable sort.
  - `tui` — the interface state machine (selection, filtering, sorting, keys, adding and deleting feeds).
  - `view` — the text the screen shows.
  - `laws` — properties proved across calls (bounded seen keys, idempotent updates, sorted listings, …).
- `app/` — the program: command line (`clap`), state file (`serde_json`, `dirs-next`),
  HTTP (`reqwest`, `tokio`), terminal (`ratatui`, `crossterm`), link opening (`open`).
- `tests/` — tests of the library.

Usage: `rss-reader [URL] [--feed URL]... [--feeds FILE] [--max-items N] [--seen-cap N]
[--timeout-secs N] [--user-agent UA]`. Feeds files hold one URL per line; blank lines
and lines starting with `#` are ignored. Keys: `j`/`k` or arrows move, `Enter`/`→` enter,
`←` back, `Tab` switch pane, `/` search, `s` sort, `a` add a feed or import a file, `d` delete, `r`
refresh, `q` or `Esc` quit.
