# ears

The core of a dictation client, verified with Verus.

- `src/` is the library: text and word buffers, the decision whether a correction may replace
  what was dictated, keyboard plans, hotkeys, the overlays without their widgets, messages of
  the server, requests to the language model, and the session that ties them together. Modules
  named `*_laws` and `screen` state what holds across operations.
- `tests/` runs the library.
- `app/` is the program around it: arguments, signals, sockets, files, windows and input
  devices. It carries out what the library decides.
