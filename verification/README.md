# macb_timeline

MACB (modified, accessed, changed, born) timestamp collection, chronological
timelines and timestamp-anomaly detection for forensic work. The library in
`src/` is written in Verus: each function states its behaviour in
`requires`/`ensures` and Verus proves it. The command in `app/` parses
arguments, walks the filesystem, reads files and writes reports around it.

## Layout

- `src/model.rs` — records, events, anomalies, timestamps and their views.
- `src/anomalies.rs` — the anomaly rules and the merge with scanner findings.
- `src/timeline.rs`, `src/sort.rs`, `src/orders.rs`, `src/paths.rs` — timeline
  building, filtering and stable sorting under path/time orders.
- `src/time_filter.rs` — `--since` / `--until` parsing and range filters.
- `src/output.rs` — CSV, bodyfile, table cells and JSON payloads.
- `src/scanner.rs` — scan options, glob filters and record construction from
  `statx` / metadata values.
- `src/hash.rs` — algorithm names, digests and hex rendering.
- `src/tsk.rs` — Sleuth Kit image logic: image types, EWF segments,
  partitions, NTFS attribute checks and directory-walk entries.
- `src/cli.rs`, `src/pipeline.rs` — command-line values and the run plan.
- `src/laws.rs`, `src/rule_laws.rs` — properties that relate several functions.
- `src/clock.rs`, `src/text.rs` — chrono and std calls the library relies on,
  with their stated contracts, and verified text helpers.
- `app/` — the `macb-timeline` command (clap, walkdir, rustix, rayon,
  serde_json, tabled).
- `tests/` — tests of the library.

Offline image scanning needs the libtsk C library; this build has the image
logic in the library but no libtsk bindings in the command.
