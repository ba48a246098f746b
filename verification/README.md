# seppo

A small terminal text editor. The library (`src/`) holds its logic, verified
with Verus:

- `buffer`: the lines of a file, read-after-write and insertion rules.
- `text`: splitting file text into lines, UTF-8 length facts.
- `undoredo`: the undo and redo stacks and their laws.
- `view`: the line being edited, every editing operation, undo and redo of
  each, and the screen rows that a redraw shows.
- `editor`: the cursor and the handling of key and resize events, as a
  function from state and event to next state and action.
- `terminal`: the screen size.

`app/` is the terminal front end: crossterm set-up, the event loop, prompts
and file reading and writing.
