# Alacritty, verified

The logic of a terminal emulator as a library whose behavior is stated in contracts and proved with
Verus, and the program around it.

- `src/`: the library. The command line and the configuration (`cli`, `config`), the socket and the
  log (`ipc`, `logging`, `crash`), the clipboard (`clipboard`), the pseudoterminal (`tty`), damage
  tracking (`damage`, `terminal`), the renderer from glyph placement to draw commands (`renderer`),
  shader sources (`wgsl`), text (`text`, `wide`, `toml_value`), and the systems that all this depends
  on (`platform`).
- `tests/`: the library on concrete values.
- `app/`: the program: windows, files, sockets, processes, fonts and the graphics card, and all that
  is computed in floating point.

The library decides; the program acts. Where the outside world takes part in a decision, the
library takes what it said as a value and returns what is to be done next.

Where the library calls another crate, a trusted item in `src/` says what is relied on:
`cli/schema.rs` for `nanoargs`, `toml_value.rs` for `toml`, and `renderer/content.rs` for
`unicode-width`; `text.rs`, `wide.rs` and `config/monitor.rs` hold those for the standard library.
