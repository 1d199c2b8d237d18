# tui_clock

A terminal clock with a menu, a settings page (12/24-hour format, seconds on or
off, colour theme) and an About page. Settings persist in
`<config dir>/tui_clock/config.toml`.

- `src/` is the verified library: key handling as a state machine, the
  configuration format (lenient reader, writer, and the proof that reading back
  what was written gives the same settings), glyph rendering and page layout
  (with the proof that every drawn line lies inside the terminal), and the
  themes.
- `app/` is the program around it: the terminal event loop, drawing frames with
  colours, reading the clock and the environment, and the configuration file on
  disk.
- `tests/` exercises the library on concrete values.
