# srt_router

A crosspoint video router: sources (SRT, NDI, OMT, and ffmpeg-driven media
sources) publish payload chunks, outputs each carry one source at a time, and
an operator re-routes outputs live from a web UI or a REST API. A small
desktop launcher supervises the server.

## Layout

- `src/` — the library, verified with Verus: the crosspoint and its routing
  table, the registry of running sources and outputs, the NDI and OMT frame
  envelopes, the web and management API decisions, the relay loops'
  decisions, the media sources' ffmpeg arguments, chunking and restarts, the
  routing state's text on disk (read back and written) and its persistence
  decisions, and the launcher's injection and path logic. Calls
  into outside crates (tokio channels, `toml_edit`, `serde_json`, `if_addrs`,
  std's path functions) sit behind small trusted wrappers whose doc comments say what
  is assumed of them.
- `tests/` — tests of the library.
- `app/` — the `srtrouter` binary: configuration loading, the network and
  SDK I/O of each transport, the axum web server, and the launcher's file
  work. The routing, validation, relay, media supervision, persistence and
  launch decisions it acts on are the library's; what stays here is
  plumbing around them.
