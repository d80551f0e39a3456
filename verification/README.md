# todo_app

A local-first task planner whose core is verified with Verus.

- `src/` is the verified library: the task model, the greedy scheduler, identity matching
  between app tasks and TaskNotes notes, the TaskNotes note parser and importer, the task
  store (an in-memory store and the row encoding that a database store uses), and the task
  edits behind the desktop commands. Laws that span several functions are public proof
  functions next to the functions they speak of.
- `app/` is the shell around it: the SQLite store, the vault scan on disk, the TaskNotes
  provider as a sync provider, and the Tauri commands.
- `tests/` runs the library on concrete values.
