# glazgod

A keystroke journal: it records what is typed and pasted into sessions,
closes a session after a pause in typing, and keeps the sessions worth
keeping in an SQLite journal that a Tauri front end searches.

- `src/` is the verified library (Verus):
  - `text`: character classes, UTF-8 widths, trimming, decimal numbers;
  - `editor`: lines of the buffer and the effect of each editing key;
  - `session`: the session state, typing, pasting, timeouts, and closing a
    session;
  - `settings`: the stored settings and how they steer the state;
  - `clock`: the monotonic and wall clocks the session reads;
  - `keyboard`: the keyboard hook's decisions;
  - `tray`: the tray menu's entries;
  - `storage`: the journal's location and the text of its queries.
- `app/` is the application around it: the Tauri window, tray and commands,
  the global keyboard listener, the clipboard, locking, and the SQLite reads
  and writes.
- `tests/` runs the library on concrete inputs.
