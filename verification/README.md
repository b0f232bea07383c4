# archive-core

The core of an archive extraction tool (ZIP, RAR, 7z, TAR, gzip, bzip2, xz,
Zstandard and the compressed TAR variants), written in Verus. The decisions
the extractors and creators take on each entry, each chunk and each
cancellation check are verified functions with contracts; the loops that
read archives and files and call them in order live in `app/`.

## Layout

- `src/` — the verified library.
  - `safety.rs` — entry-path checks (Zip Slip, Windows device names, path
    length), the overwrite policies and the names of temporary files.
  - `detect.rs`, `volumes.rs` — format detection from the first bytes and the
    file name; the volumes of split archives and positions in their joined
    stream.
  - `extract.rs`, `stream.rs`, `tally.rs` — size limits, the streaming copy,
    partial-extraction filters, per-entry decisions and the running summary.
  - `creators.rs`, `extractors.rs` — the choice of creator and extractor, and
    what each one supports.
  - `events.rs`, `state.rs`, `launch.rs` — error codes and progress events for a
    user interface, the table of running tasks, start-up arguments.
  - `text.rs`, `paths.rs` — the character-sequence and path model the contracts
    are written in.
- `tests/` — tests on concrete values.
- `app/` — a command-line program around the library: it opens files, runs the
  decoders and encoders of the outside crates, and asks the library what to do
  at each step.
