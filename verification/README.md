# calendar_automerge

A small calendar of appointments and tasks. The library in `src/` holds its logic,
verified with Verus; `app/` draws it with egui.

- `calendar`: the proleptic Gregorian calendar as day numbers, and the calls into
  `chrono` that turn dates into timestamps and back.
- `text`: decimal text of integers and zero padding.
- `repeat`: repeat periods (months plus seconds), their components and their text.
- `counter`: the "-" / "+" counters of the editing window.
- `appointment`: the appointment/task record and its title line.
- `order`: stable ordering of the lists by start, and removal of marked entries.
- `window`: the editing window, what it shows of an entry and what it saves.
- `viewer`: the week table, the selection of a span and the highlight of cells.
- `app_state`: the whole application state and its decisions on each frame.
