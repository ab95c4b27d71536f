# rat_widget_core

The logic of a set of terminal widgets, written in Verus with its
contracts proved:

- `selected`: list selection models (none, single, set with anchor and lead).
- `textarea_core`: text positions and ranges, the sorted map of styled ranges
  that follows inserts and removals, and the text area core (text, styles,
  cursor and selection anchor; inserting, removing, grapheme and byte
  positions).
- `undo`: the bounded list of edits that undo and redo replay.
- `popup`: placement of a popup relative to an anchor area, kept inside a
  boundary, and the popup's active state.
- `splitter`: layout of parts and split bars, moving a bar by keys or by
  dragging, and the symbols drawn on the bars.
- `button`: arming and pressing a button with keys and the mouse.
- `message`: a status line and a status dialog that collects messages.
- `geometry`, `event`: plain rectangles, positions and outcomes.
- `outside`: the declarations of the terminal crates' types and the trusted
  wrappers around their calls.

`app/` draws the widgets into a ratatui buffer and turns crossterm events into
the library's events. `tests/` runs the library on concrete values.
