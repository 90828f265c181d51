# rook

The verified core of a non-linear video editor.

- `src/` — the library, checked by Verus: the editing model (projects,
  timelines, tracks, clips, multicam groups, plugins), the edit commands,
  what each does to a project and run-time checks that one can be applied,
  the undo/redo history and named snapshots of
  an editing session, load-time repairs, frame resolution, the frame cache,
  packing of decoded frame planes, the interchange formats (FCPXML, EDL),
  and the naming tables and small parsers used around decoding, jobs and the
  agent API.
- `tests/` — tests run against the compiled library.
- `app/` — the command-line program around the library: argument handling,
  files, the JSON-RPC agent server, crash reports on disk, and the
  computations done in floating point.
