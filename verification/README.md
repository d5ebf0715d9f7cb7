# jpixel

The logic of a desktop screenshot tool, verified with Verus: hotkey parsing,
the configuration and its hotkey setters, the double-press state of the
capture hotkey, capture geometry and the stitching of multi-display
captures, GIF palette quantisation and the recorder's state machine, the
naming of overlay and pin windows, and what the capture commands hand back
to the frontend.

Layout:

- `src/` — the verified library.
  - `shortcut.rs` — hotkey strings such as `Ctrl+Shift+A` to shortcuts.
  - `config.rs` — the persisted configuration, hotkey setters, and the
    double-press handling of the capture hotkey, with its waiting time.
  - `capture/` — pixel buffers, capture rectangles and stitching
    (`screen.rs`), GIF quantisation, the recorder's states, the end of a
    recording and the pacing of its frames (`gif.rs`),
    colours, `data:` URLs and temporary file names (`mod.rs`).
  - `window.rs` — labels, routes and events of overlay and pin windows,
    the monitor a pin opens on, and how long to wait for old overlays to
    close.
  - `ocr.rs` — decisions around the text-recognition process: where the
    program is looked for, how long to wait, what its outcome means.
  - `clipboard.rs` — when a failed clipboard operation is tried again.
  - `encode.rs` — Base64, percent-encoding and PNG, done by outside crates
    behind trusted wrappers.
  - `error.rs`, `text.rs` — error types and their messages; string helpers.
- `tests/` — tests of the library on concrete values.
- `app/` — the desktop shell, not verified: windows, tray, global
  shortcuts, screen capture, clipboard, files and processes. It performs
  the I/O and takes the decisions listed above from the library; what it
  decides itself is the floating-point work (stroke drawing, frame
  resizing, window placement in logical pixels) and the plumbing of the
  desktop framework.
