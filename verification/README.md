# isomidi

An isomorphic hexagonal MIDI keyboard. The verified library (`src/`) holds:

- `keyboard`: the key layouts (`JammerKeyboard`, `HarmonicKeyboard`) behind the `Keyboard`
  trait, with the laws of each layout (semitone and fifth steps, octave repetition, labels).
- `layout`: the hexagon description, corner translation, the grid that covers the window,
  where each key is drawn, and which hexagon owns a triangle of the triangular grid.
- `color`: the colour of a note in the configured major or minor key.
- `board`: everything drawn for each key (outline, fill, label), key by key and for the whole
  board in row-major order.
- `state`: which hexagon each pointer holds, and the MIDI messages that pressing, moving and
  releasing send.
- `arith`: machine-integer division and remainder as Rust computes them.

`app/main.rs` is the program: the SDL2 window and event loop, the MIDI output (midir), and the
floating-point trigonometry that turns a click into triangle coordinates and a radius into
hexagon corners.
