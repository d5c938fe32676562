# airtalk

Voice input for Windows: hold a key, speak, and the text lands in the focused
window. This crate holds the logic of both halves of the program, verified with
Verus, and the ordinary Rust around it.

## Layout

- `src/` is the verified library.
  - `text`, `json`: strings, numbers and JSON values.
  - `proto`: the messages between the interface and the engine, and how they
    are framed as lines.
  - `engine`: session parameters, the session actor, voice segments, the
    requests to the recognition and cleanup services and their replies, the
    Ogg container, and how the replies become one result.
  - `ui`: the main loop, the hotkey, capture, pasting, the overlay, the popup,
    the settings and their storage.
- `tests/` runs the library on concrete values.
- `app/` does the I/O: it reads and writes, asks the library what to do, and
  does it.

## What is trusted

A few items are declared with contracts that are believed, not proved. They
stand for functions of the standard library, `base64` and `crc`. Each says above
its declaration what it claims.

## Running

The program is one executable under three names in one directory: `airtalk` (the
interface), `airtalk-core` (the engine) and `airtalk-cli` (starts the interface
from a terminal). The last two are built with `--cfg console`. Beside them lies
`silero_vad.onnx` (the voice model).

A build with `--cfg slint_ui` draws the settings and the popup with Slint. It
needs `slint` 1 and `raw-window-handle` 0.6 among the dependencies. Without it,
the settings open in Notepad and the popup is drawn with GDI.
