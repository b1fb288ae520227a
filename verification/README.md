# key_logger

A key logger that counts key presses, and an analyzer that reads those
counts and searches for a keyboard layout with the least expected typing
time (Fitts' law).

The library under `src/` holds the logic, written in Verus and verified:

- `stats`, `keylogger`: the table of counts, the keys newly pressed between
  two polls, the export order (most pressed first, then by name) and the
  summary of a session.
- `text`, `keys`, `csv_reader`, `counts`: key identifiers, the reading of
  key labels and of `Key,Count` files, and the adding up of counts.
- `config`, `opt_config`, `constants`, `error`: settings, their validation
  and the error types.
- `geometry`: the grid of quarter-unit cells, the finger of each cell, the
  reserved letter blocks, the home keys and the runs of free cells.
- `arrows`, `model`: the places of the arrow cluster, the slots of the other
  keys, the variables and constraints of the layout model, the layout that
  a chosen assignment gives, and the proofs that such a layout covers every
  cell at most once and places every key once when the assignment meets
  the constraints.
- `baseline`: the reference (QWERTY) layout and the places of its keys for
  its evaluation.
- `v2`, `layer_constraints`: the layer model of the second solver version.
- `colors`, `vis`: colours, labels and text escaping of the figures.

The program under `app/` (with `analyze` or `baseline` as first argument
the analyzer, without arguments the logger) reads the keyboard, the
environment and files, computes the Fitts times (real numbers), runs the
solver and draws the figures; it calls the library for everything else.
