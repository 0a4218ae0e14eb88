# herdr_kit

The logic behind a set of plugins for the Herdr terminal multiplexer —
Pane Manager, Layout Tools, Navigator, Open and Command Palette — as a
library whose behaviour is stated in contracts and proved with Verus.

## Layout

- `src/` — the verified library. Split trees and the plans that rebuild
  them (`layout`, `arrange`, `template`), pane operations and their undo
  (`ops`, `place`, `undo`, `state`), Active Agent Gather (`gather`,
  `gather_ops`), the menus and pickers of every plugin (`menu`, `landing`,
  `pickers`, `tools_ui`, `saved_ui`, `nav_list`, `palette`, `palette_list`,
  `open`), the box diagrams of the previews (`diagram`, `pictures`,
  `preview`) and the terminal layout arithmetic (`term`), plus the command
  lines (`pm_cli`, `tools_cli`) and labels and text helpers.
- `tests/` — tests of the library on concrete values.
- `app/` — the program around the library: the Herdr socket client, the
  terminal, the config and state files, cutting split trees into cells (a
  floating-point step), and the loops that make the Herdr calls the library
  decides on.

The laws the library keeps are public proof functions named `lemma_*`
beside the functions they speak of.
