# platinum_shell

The logic of the Platinum handheld shell, verified with Verus: the shell's
state machine (routes, running apps, drawers, dock swipes), the launcher's
store of contacts and message threads, the parsers that read battery and
network state from system tools, the plans that switch system toggles, the
dialer and conversation panes, and the labels and indicators the shell shows.

- `src/` is the verified library.
- `tests/` exercises it on concrete values.
- `app/` is the GTK program around it: it reads the device, runs the system
  tools, keeps the store in SQLite, and draws the widgets.
