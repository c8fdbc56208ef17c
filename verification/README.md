# rs-histver (verified core)

Historical Rust release versions — stable, beta and nightly — fetched from
the GitHub Releases API, `RELEASES.md` and the channel manifests on
static.rust-lang.org, and cached in a redb database.

- `src/` is the library, written and proved with Verus: channel names and
  parsing, configuration and its builder, the fetchers' choices, the parsers
  of each data source, the probing and paging decisions, and what the store
  writes, reads back, lists, searches and counts, and how the database file
  is opened (shared file, standalone fallback, recreation).
- `app/` is the command-line program around it: argument parsing (clap),
  HTTP (reqwest, tokio), the database file (redb) and the table output
  (comfy-table).
- `tests/` exercises the library on concrete values.
