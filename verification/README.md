# bg3_save

Baldur's Gate 3 save analysis, verified with Verus: the save models, the
LSF node-tree getters, searches and dump, party extraction, the
`SaveInfo.json` reading, save summaries, the markdown export, the storyline
model and the overlay/mod exchange, the explorer's reports and the game-file
search, and the overlay's decisions (storyline panel, save list, reload timing).

- `src/` — the verified library (each public function has a contract; laws
  are public proof functions named `law_*`).
- `tests/` — tests of the library on concrete values.
- `app/` — the programs around it: the command-line explorer and the egui
  overlay (file system, package reading through `bg3_lib`, serde, the UI).
