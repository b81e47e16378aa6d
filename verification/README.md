# hier

A scrollable tiling Wayland compositor whose decisions are verified with
Verus.

- `src/` is the verified library: the layout of columns, tabs and
  workspaces (`layout`, with its laws in `layout_laws`), named actions
  (`action`), control-socket commands and framing (`command`, `control`),
  key bindings, key decisions and the depth switcher (`keys`), the
  monotonic event clock (`clock`), the host output's transform read from
  niri's JSON answers (`host`), window decorations (`decor`),
  window captures (`capture`), nesting of compositors (`nesting`), sessions
  (`session`, with its laws in `session_laws`) and text handling (`text`).
  Column widths are an opaque type parameter: the library never computes
  with them, and where a width is kept above a minimum the caller tells
  whether the request lies below it.
- `app/` is the program around it: the Smithay/winit backend, the control
  socket server, session and configuration files, the clipboard, and the
  floating-point geometry (camera, springs, window rectangles, depth
  carousel transforms).
- `tests/` exercises the library.
