# cyberplug

A terminal plugin manager for Omarchy's Quattro shell, built around a
verified library.

- `src/` — the library, checked by Verus: the application state and every
  key binding (`app`, `input`), the `omarchy plugin` command lines
  (`omarchy`), the staged settings store (`settings`), profile export and
  the import state machine (`profile`), the registry cache policy and fetch
  steps, names derived from plugin ids and repository description addresses
  (`discovery`), git remote parsing (`git`), text helpers (`text`), and
  presentation choices (`style`). The discover screen's category tabs, the
  on-demand description fetch and its session cache, the walk into placement
  after an install, and the profile screen are part of `app` and `input`.
- `app/` — the program: terminal setup and rendering (ratatui, crossterm),
  running `omarchy` and `git`, files under the home directory, the network
  (reqwest: the registry and GitHub's repository API), and JSON (serde). It drives the library: each key press goes to
  `App::handle_key`, and the command that comes back is performed here.
- `tests/` — tests of the library on concrete values.
