# npcterm39

A headless terminal emulator for AI agents, verified with Verus.

- `src/terminal`: cells, the screen grid (scrolling, erasing, alternate
  screen, synchronized output, character sets), the escape-sequence
  handler, text selection. `model.rs` holds the mathematical state of a
  grid that every operation's contract is stated over; `properties.rs`
  states laws that span operations.
- `src/screen`: text renderings of a grid (coordinate overlay, regions,
  scrollback) and the compact per-cell form.
- `src/status`: process-state detection and the bounded event queue.
- `src/input`: mouse state and SGR mouse reports.
- `src/manager`: a terminal instance (mouse, selection, scrollback view,
  events, process state) and the registry of instances with short
  identifiers.
- `src/web`: run-length-encoded rows for viewers and the interaction log.
- `src/mcp`: the decisions of the tool requests (sizes, mouse actions,
  scroll actions).
- `app/`: the program around the library: arguments, the process-wide
  marker flag, the escape-sequence parser's callbacks, and serializable
  copies of the message types.
