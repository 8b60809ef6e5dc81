# tui_timer

A terminal time tracker with two levels of timers: top-level timers that
may hold sub-timers. A parent's displayed time is its own reading plus the
readings of all its children; running clocks are stored as the Unix time
they started at, so they keep running while the program is closed.

- `src/` is the verified library: the clocks (`timer`), the text shown for
  durations (`duration`), the front-end state machine driven by key presses
  (`app`), the command line (`cli`), the system clock (`clock`) and the
  string operations it relies on (`text`).
- `app/` is the terminal program around it: reading and writing the JSON
  state file, the event loop and the drawing.
