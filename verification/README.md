# rustlab

A JupyterLab-style notebook application. The `rustlab` library (`src/`) is
verified with Verus; the program around it (`app/`) is ordinary Rust.

## Library (`src/`)

- `text`, `order`: string helpers and the code-point order on strings.
- `ansi`: ANSI-styled terminal text to styled spans (the escape-sequence
  state machine is `anstyle_parse`; colours and SGR handling are here).
- `render`: choosing the richest representation of a mime bundle and
  preparing it (base64 images, markdown, styled text).
- `model`: the notebook document (cells, outputs, stream merging) and its
  mapping to and from nbformat v4 cells.
- `nbfile`: reading and writing `.ipynb` text through `nbformat`.
- `session`: a notebook tab — its kernel state, the requests in flight, and
  how kernel messages change the cells.
- `kernels`, `worker`: choosing a kernelspec, the discovery order, and the
  decisions of the kernel worker, connection retries and the smoke test.
- `workspace`, `sidebar`, `menu`, `labels`, `launcher`: panes and tabs, the
  file browser, the menu bar, and the texts the window shows.

Laws of the library are public proof functions named `law_*`.

## Program (`app/`)

The iced window, the kernel processes and ZeroMQ channels (through
`jupyter_zmq_client`), and file access. It hands plain values to the
library and performs what the library decides.

`rustlab --headless-test` runs a kernel smoke test without a window.
