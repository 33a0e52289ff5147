# cem

The verified core of a workbench for computational electromagnetics. The
library (`src/`) is written in Verus. Its own functions are proved against
their contracts; the calls it makes into `std`, `hecs` and `unicase` go
through small wrappers whose contracts are trusted, each documented with what
it claims of the function it calls.

- `resources` — a store holding at most one value per type (type-erased
  values keyed by `TypeId`), with an entry API.
- `undo` — the composer's undo buffer: bounded undo/redo lists, and "hades",
  a separate `hecs::World` that keeps deleted entities until their undo action
  is dropped.
- `composers` — the open files as tabs and which one is active.
- `clipboard` — the clipboard's local buffer, newest item first, optionally
  bounded.
- `file_formats` — the known file formats and guessing a format from a path.
- `spatial` — leaf indices of the scene's bounding volume hierarchy and the
  entities they stand for.
- `util` — a shared buffer that is reused when unshared, path display relative
  to the home directory, borrowed-or-owned values.
- `app`, `assets`, `config`, `geometry` — repository links, loading progress,
  configuration defaults, and the volume mesh container.

`app/` is a small command-line front end: it turns operating-system paths
into text, reads the home directory, and prints what the library says about
the files it is given. `tests/` exercises the library.
