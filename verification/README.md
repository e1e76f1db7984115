# ttui

A terminal UI framework built around layered cell buffers, time-driven
animation and stateless widgets, with a headless snapshot tool that runs
an example app under a pseudo-console and rasterizes what it draws.

## Layout

- `src/` — the verified library (Verus). Area splitting (`layout`),
  key-binding resolution with chords (`input`), transitions and glitch
  state (`transition`, `glitch`), sub-cell canvases (`canvas`), cell
  grids (`grid`), cell writes and border rings (`paint`), the widgets'
  layouts (`widgets`), the terminal redraw encoder (`redraw`), the event
  loop's decisions (`event_loop`), and the snapshot tool's logic
  (`snapshot`: key encoding, the cursor-position query, glyph bitmaps,
  palette mapping, the screen a stream of output leaves (through
  vt100), rasterizing, PNG encoding, scripts, the judging prompt, the command
  line's checks). Each public function's contract states its result;
  where that result goes through an outside call (a `Duration`'s
  nanoseconds, a character's display width, a font table, the vt100
  screen, the PNG bytes), the
  contract names the call's result rather than spelling it out. The laws
  that relate several functions are public proof functions.
- `tests/` — tests of the library.
- `app/` — everything that computes in floating point (compositing
  layers, color interpolation, easing, particles, projections, the
  float-driven widgets) or does I/O (the terminal, the event loop, the
  pseudo-console, image files, the judge's HTTP call), plus the snapshot
  tool's `main`.
