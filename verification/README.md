# tview

A Win95-style terminal multiplexer for the raw Linux console: full-screen
sessions on one canvas, a taskbar with clickable tabs, a Start menu, mouse
selection with copy/paste, and a scrollback view per session.

The library (`src/`) holds the logic, each function with a contract proved by
Verus:

- `input` — incremental decoding of keyboard and SGR mouse input;
- `screen`, `display` — the off-screen canvas, its row-diffing renderer, and
  what a terminal shows after a flush;
- `taskbar`, `menu`, `selection`, `keys`, `clipboard`, `battery`, `console` —
  the pieces of the user interface and what they read;
- `emulator` — what the library reads of a session's `vt100` screen, and its
  scrollback view;
- `app` — the multiplexer as a state machine: an event in, the next state
  and the effects to carry out (write to a session, spawn, close, …) out;
- `laws` — properties of the library as a whole.

`app/` is the program around it: raw mode, the sessions' ptys, the polling
loop, and carrying out the effects the state machine asks for.
