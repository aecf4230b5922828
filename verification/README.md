# zvm — verified core of the `z` Zig version manager

`z` downloads, caches and switches between Zig toolchains. This crate holds
its decision logic as a Verus-verified library; `app/` is the command-line
program around it (argument parsing, terminal output, file system, network,
processes and prompts).

Library modules (`src/`):

- `text` — character-sequence helpers, including trimming Unicode white
  space (verified against the `White_Space` set).
- `arch` — Zig target names, archive and binary names per platform, and this
  tool's release asset names.
- `paths` — prefix, cache, marker and bin paths (`Path::join` is called
  through a trusted wrapper); reading the active-version marker.
- `releases` — the download index, version parsing, the listing order
  (nightly first, then descending version; a stable sort) and the
  resolution of version labels and aliases.
- `cache` — cache keys with SHAs, fuzzy SHA matching, picking the newest
  cached match, listing cached versions and planning a prune.
- `install` — classifying labels (alias, version, SHA), cache lookups before
  and after resolution, reading `zig version` output, building cache keys.
- `flow` — install, fetch and run as a state machine: each step decides the
  next outside action from the result of the last one.
- `list`, `update`, `download` — listing lines and menus, self-update
  decisions, archive format (`Path::extension` is called through a trusted
  wrapper), flattening an unpacked archive, and download progress.

`tests/` exercises the library on concrete values.
