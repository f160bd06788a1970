# rnm

A batch file renamer with a terminal interface and a command-line mode,
whose logic is verified with Verus.

- `src/` is the library. Each function states what it computes in its
  contract, and the public proof functions named `law_*` state properties
  that span several calls (cycles of modes and sort orders, undoing a key,
  sorting that keeps every entry, what a validated batch guarantees for
  each of its renames, ...).
  - `modes`: rename modes, sort orders, focus and dialog states.
  - `text`, `utf8text`, `date`: character sequences, byte cursors in
    UTF-8 text, and calendar dates of modification times.
  - `entry`: file entries and their stable ordering.
  - `operations`, `rules`, `pattern`: previews of a rename batch under each
    mode, and the checks made before renaming.
  - `app`, `keys`, `panels`: the interactive application as a state
    machine over an abstract state, and what the screen shows.
  - `config`, `cli`: presets and the command-line options.
- `app/` is the program around it: argument parsing, the configuration
  file, directory listing, renaming on disk and drawing the screen.
- `tests/` exercises the library on concrete values.
