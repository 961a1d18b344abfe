# shipyard

A launcher for the HarbourMasters N64 games (Ship of Harkinian, 2 Ship 2
Harkinian, Ghostship, Starship, SpaghettiKart): it lists their GitHub
releases, installs and uninstalls versions, keeps a library of ROM files and
links each game's ROM slots to them at launch.

- `src/` is the library, written in Verus and verified: configuration loading
  and migration, the game tables, release-asset selection, install planning,
  library scans, the ROM library (listing order, import names, migrations),
  cached-asset scans, slot-link reconciliation, the GitHub rate-limit and ETag
  logic, path expansion, and the launcher's state machine (`app::App::update`)
  with what its screens show. Each public function states its result in its
  contract; the `law_*` proof functions state properties across calls.
- `app/` is the program around it: the iced window, file and network I/O,
  zip extraction, process spawning, and the YAML/JSON file formats.
- `tests/` exercises the library on concrete values.
