# tz_player

The verified core of a keyboard-driven terminal music player.

`src/` is the library, written in Verus: every function carries a contract
that Verus proves, and the laws the player relies on (round trips, ordering,
bounds, state-machine invariants) are stated as proof functions next to the
code they are about. It covers:

- PCM arithmetic, exact seeking and rate conversion of decoded audio
  (`pcm`, `seek_trim`, `resample`, `pcm_stream`, `capture`);
- the decoder helper: its command line, wire protocol, build pinning and
  capability checks (`helper_cli`, `protocol`, `helper`, `manifest`,
  `compat`, `sniff`, `discovery`);
- playlists: search queries, position keys, reordering, next/previous and
  shuffle resolution, schema migrations, cache fingerprints and eviction
  (`playlist`, `ordering`, `transport`, `schema`, `cache`, `models`);
- the interactive session: transport state, cursor and editor decisions,
  footer status, settings repair, file listing order and path
  normalization (`player`, `navigation`, `levels`, `state`, `listing`,
  `pathnorm`, `paths`);
- text safety and formatting (`terminal`, `diagnostic`, `text`, `fmt`,
  `about`), analysis limits and waveform bucketing (`analysis`), and the
  benchmark runner's configuration (`bench`).

`app/` is ordinary Rust around the library: the helper's `main`, the SQLite
statements, file-system scans, JSON settings and wire formats, helper process
management, and the floating-point sample arithmetic.

Paths are modelled by their components (`Path::components`); platform facts
that the library cannot read itself, such as the helper's file name on
Windows, whether the platform lays packages out as application bundles,
whether stored track paths take the Windows form, and which drive letters are
mounted (`app/files.rs`, `mounted_drive_entries`), are passed in by `app/`.
Track path normalization resolves `.` and `..` with `/` as the separator.

`tests/` exercises the library through its public interface.
