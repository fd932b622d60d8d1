# giest

The verified core of a terminal emulator: what it reads, decides and computes
between its window toolkit, its pseudo-terminals and its terminal engine.
Every function in `src/` carries a contract. Verus proves it, except for the few
wrappers round outside calls, whose contracts it believes.

## Modules

- `config`: the configuration file. Its lines, the grammar of each value, what
  every key sets, themes, layered files and the laws that hold of a load.
- `engine`: the grid as it is drawn. Cells and colours, selections, the
  snapshot of a frame, images and their cache, PNG decoding.
- `decscusr`: the scanner that follows the cursor style through raw output.
- `keybind`, `hotkey`, `ime`: keys, chords, global hotkeys and composition.
- `ipc`: the frames and versions of the control channel.
- `handoff`: taking over a console session, and its registration.
- `dropfiles`, `jumplist`: quoting paths and arguments for a shell.
- `icon`, `iconart`, `indicators`, `inspector`: the window icon, its pixel
  art, on-screen labels and progress, and the capture of recent output.
- `text`: strings as sequences of characters.

## Layout

- `src/`: the library. The items that Verus believes without proof wrap calls
  into `png`, `compact_str`, `serde_json` and the standard library; the
  doc comment above each says what it claims.
- `tests/`: what the library does on given inputs.
- `app/`: the part that reads files, talks to the operating system and drives
  the outside crates. It is ordinary Rust.

Decimal settings are kept as the text that was written. `app/` turns them into
floating-point numbers and clamps them.
