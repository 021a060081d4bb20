# media_organizer

Organizes movie and TV show files: a plan names where each video goes
(country folder, work folder, season folder, NFO file and poster); for an
execution the library gives the operations in order and the step each
calls for, skipping any whose target already exists so that no file is
overwritten, and records how to undo them; a rollback undoes them. A
central index keeps what every scanned disk holds and answers searches
by actor, director, genre, country, year and collection.

Layout:

- `src/` — the library, verified with Verus: filename and NFO parsing, name
  generation, target planning, the step-by-step planning and TMDB search
  flows, the metadata kept of TMDB detail records, plan execution and
  rollback decisions, the central index (merge, rebuild, statistics,
  search), the time stamps and random ids (whose reads from the system may
  fail; the callers then report it) and the laws in `laws.rs` and
  `index_laws.rs`.
- `app/` — the command line around it: argument parsing, JSON and TOML
  files, directory walks, file operations and terminal output for the
  index and rollback commands.
- `tests/` — tests of the library.
