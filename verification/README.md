# tui_dotfile_manager

A dotfile manager that links files of a dotfile repository into place,
backing up what it replaces, and restores those backups; with a terminal
interface and a headless command line.

- `src/` is the library, verified with Verus: the configuration and its
  validation, path resolution, the plans of sync and restore (the log lines
  and the file-system actions, decided from what was observed), backup names
  and their parsing, sizes as shown, diff results and summaries, a sync as a
  dialogue with the file system (the run asks for what it needs and is told
  how it went), the state machine of the terminal interface, and the text the
  screen shows. Calls into `chrono`, `shellexpand`,
  `similar` and a few `std::path` functions stand behind small trusted
  wrappers whose contracts are stated in their doc comments.
- `app/` is the program: arguments, reading the TOML configuration, observing
  and changing the file system as the library's plans say, worker threads and
  drawing the screen.
- `tests/` runs the library on concrete values.
