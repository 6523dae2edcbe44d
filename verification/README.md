# kromodo_core

The core of KromoDo, a local-first to-do application, written in Verus.

`src/` is the verified library:

- `task`, `priority`, `time`, `due`, `text`, `error`: the task record and the
  rules for adding, editing, completing and duplicating a task; priority
  levels and their stored numbers; instants and the local calendar; due-date
  labels; trimming of entered text; errors.
- `filter`, `query`: which tasks each view shows and the order in which every
  listing returns them.
- `events`: the change events and the bus that hands them to subscribers.
- `migration`: which schema upgrades a database still needs.
- `ui`: the decisions of the user interface — the sidebar, the style classes of
  a row, what a row does on each input, and the board that keeps the task
  lists on screen in step with change events.

`app/` is the GTK program around it: the SQLite store (rusqlite), the shared
state with its locks, and the widgets (relm4, libadwaita). It reads the
system clock and hands the instant to the library, and it performs the reads,
writes and list operations that the library decides on.
