# neovm_core

The window, frame, display, face, encoding and XML builtins of an Emacs Lisp
machine, written in Rust and verified with Verus.

Every builtin is a function on plain data: Lisp values (`value`), buffers
(`buffer`), frames and their window trees (`frame`, `window`), symbols (`symbol`)
and the session that holds them (`session`, `window_cmds::state`). A builtin's
contract says what it returns or signals, and what it leaves behind, for every
argument list.

- `encoding`: coding systems, line endings, character widths and positions.
  Big5 and GB2312 go through `encoding_rs`.
- `window_cmds`: windows and frames: queries, splitting, deleting, selecting,
  scrolling, resizing, parameters.
- `xdisp`: mode lines (`format-mode-line`), positions on the screen, text sizes.
- `xfaces`, `xml`: faces of frames, and the stand-ins for XML parsing and zlib.

Lengths on the screen are whole pixels or character cells. Floats are kept as the
bits of their IEEE 754 doubles; what computes with them stands in `app/`, beside
the printed form of values and the host that shows frames.

Laws that relate several functions are public proof functions whose names start
with `law_`.
