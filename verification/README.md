# omarchy-circle-search

A Wayland tool for Omarchy and Hyprland: draw around anything on screen and
send the crop to a reverse-image search engine or an AI chat.

The crate is split in two:

- `src/` is a library verified with Verus. It holds the logic: the
  configuration file parser (`config`) and its default file
  (`default_config`, proved to load as the defaults), the theme colour
  reader (`theme`),
  the engine menu (`engine`), the selection geometry and capture names
  (`capture`), the search helper launch plans (`search`) and the dependency
  checks and notices of a run (`checks`), over character-level helpers
  (`text`). Each public function states its result in its contract, and the
  properties the tool promises (unknown settings are ignored, the selected
  engine is always one the menu shows, small selections are rejected, an
  accepted selection covers the stroke, ...) are proved as lemmas.
- `app/` is the program around it: command-line flags, the GTK4 layer-shell
  overlay and its drawing, and the external commands (`grim`, `wl-copy`,
  `python3`, `xdg-open`, `omarchy-notification-send`).

`tests/` runs the library on concrete inputs.
