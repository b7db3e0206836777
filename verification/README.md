# karakuri_bridge

The bridge of a live-visuals console: what a press on a strip, a pane, a key
or a library row means, what it asks of the deck, the store and the build
workers, and the sentence the terminal and a model are told about it.

`src/` is the library, written in Verus: every function states its result in
its contract, and the properties that span functions stand as `law_` proof
functions beside them. It holds the decisions and the sentences; it holds no
device, no disk and no window. What those answer comes in as plain values —
whether a directory entry is a folder, whether a build worker took an aim,
what the store said when a star was written — and the library says what
follows.

- `listing`, `library`, `order`, `history`, `taking`, `declared`, `marks`:
  the Library bay — what each scope lists and in what order, a Set's reading,
  the edit history and putting a version back, folders and preset rows, stars
  and named arrangements.
- `pane`, `inspector`: the Inspector pane — its rows, its groups, the folded
  renderers, the `uses` lines and the capacity chip.
- `mixer`, `frame`, `readings`, `records`, `master`: a deck's strips, the
  frame, which readings a record needs, and what a record applied to a deck
  is said as.
- `aiming`, `loading`, `material`, `staging`: re-aiming a slot, loading a Set
  or a procedure onto it, and the Staging lane's rows.
- `sequencer`, `pointer`, `keys`, `feedback`, `saving`, `layer`, `text`:
  the Sequencer bay, a surface's own pointers, the keyboard grammar, the lines
  said of operations and saves, the layer vocabularies, and numerals.

`app/` holds the edges: reading a folder, examining a dropped path, and the
figures a console draws in floating point. `tests/` runs the library on
concrete values.

## What stays outside the library

Some of the bridge's work is not in `src/`, and is not in `app/` either,
because it belongs to the engine, the store, the console view and the
window system, none of which this crate depends on:

- Applying a record to the engine's deck: setting gains, opacities, masks,
  looks, transitions, scrubs, tempos and renderer selections, and printing
  the floating-point figures the deck reads back. The slot guard (`held`),
  the float-free sentences (`strip_said`, `ridden`, `source_said`,
  `authority_said`, `chain_said`) and which readings a record needs
  (`reading`) are in `src/`.
- Building the engine, presenting its picture and previews, aiming the
  preview cells, and the frame-rate and budget figures of the transport row.
- Filling a mixer strip's and a pane row's floating-point values, ranges and
  bindings, and a pane's sync chips; the pane's layout is in `src/`.
- Store reads and writes — stars, arrangements, kept procedures, saves,
  sends, take-ins, history walks — and the save dialog. What each one comes
  to, a read that failed among them (`unread_said`, `walk_refused`), is said
  by `src/` from its outcome.
- Rewiring an input (the wiring rule is the engine's), the exposure and
  latency-offset key steps, the filter row's chip words, and the demonstration
  pattern banks.
