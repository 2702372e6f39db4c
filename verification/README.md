# frost

A terminal dashboard for local dev services, organised by project: each
app gets an interactive shell and named sub-commands, with PTY-backed logs,
mouse selection, a command palette, search and live theme switching.

The crate is split in two:

- `src/` is the library, verified with Verus. It holds the configuration
  model and its validation, the flattening of projects into runnable
  commands, the sidebar tree, the keyboard and mouse mappings, the SGR
  mouse encoding, text selection, theme resolution (references, variants,
  cycle detection), the theme registry and store, the bookkeeping of child
  processes, and every decision the dashboard takes on an action
  (`app::AppState::route` and the functions around it).
- `app/` is the program around it: terminal setup and the event loop, the
  PTYs and the terminal emulator, reading and writing files (TOML/JSON
  configuration, theme files, persisted state), the clipboard, the
  floating-point colour arithmetic, and drawing.

Built-in themes are read at start-up from `FROST_THEMES_DIR` (default
`./themes`), one `<id>.json` file per theme.
