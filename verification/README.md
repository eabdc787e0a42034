# garlaunch

A rofi-like application launcher for the gar window manager, with its logic
verified by Verus.

- `src/` is the verified library: fuzzy filtering and ranking (over
  `nucleo-matcher`), desktop-entry reading (over `freedesktop_entry_parser`),
  the `Exec` field-code cleanup, the run/window/script listings, the IPC
  request dispatch and control-client requests, the frecency cache file
  format, and the launcher's input/selection state machine.
- `app/` is the program around it: command line, sockets, processes, the
  file system, the frecency arithmetic (floating point) and the event loop.
  The popup window itself comes from the gartk X11 toolkit, which this build
  does not include.
- `tests/` runs the library on concrete values.
