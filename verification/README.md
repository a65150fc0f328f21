# Scrub

Scrub finds rebuildable developer caches (build folders, package caches,
simulator data) and helps reclaim the space they take, moving what you pick
to the Trash by default.

The project has two parts:

- `src/` is the library, written in Verus and proved: plugin matching, the
  scan (what is measured, where the walk goes, how totals add up, how the
  report is ordered), the printed report's layout, the dashboard's state
  machine (cursor, selection, key handling, the bookkeeping of a deletion
  run), what each screen says, and the path and text handling all of this
  rests on. Laws that span operations are proof functions in
  `src/ui/laws.rs`, next to the contracts of each function.
- `app/` is the program around it: the command line, the terminal, the file
  system, the Trash and shell commands, and the serde forms of the files it
  reads and writes. It asks the operating system and hands what it saw to
  the library, which decides.

Tests under `tests/` run the library on concrete values.
