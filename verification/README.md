# fetchr_core

The verified core of a desktop media downloader built around `yt-dlp` and
`ffmpeg`: file-name sanitizing, social-media link normalization, platform
detection, download presets, the download queue's scheduling and command-line
decisions, integrity verdicts and SHA-256 digests, and the location of the external
executables. Every function in `src/` is verified by Verus against its contract;
where an answer rests on the filesystem (whether an entry exists, where a path
resolves), the decision taken on the filesystem's answers is a verified function
of its own (`path_safety_from_reports`, `collision_step`, `candidate_present`,
`select_found`).

Layout:

- `src/text.rs` — character-level string operations and their specifications.
- `src/sanitizer.rs` — file names, collision-free target names, path safety.
- `src/url_normalizer.rs` — platforms, link normalization, yt-dlp options.
- `src/capabilities.rs`, `src/presets.rs` — what platforms and presets offer.
- `src/db.rs` — task states and types as stored, history search patterns.
- `src/queue.rs` — which tasks start, file extensions, format options, failure messages.
- `src/verification.rs` — verdicts on downloaded files.
- `src/sha256.rs` — SHA-256 over a stream of bytes.
- `src/yt_dlp/` — executables, progress lines, metadata sources, yt-dlp's JSON metadata.
- `src/paths.rs` — the filesystem queries the library makes.
- `app/` — SQLite storage, logging, the queue's scheduler loop, HTTP and
  process I/O, floating-point progress, and the user-interface commands.
