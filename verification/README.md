# pwatch

A port viewer and process killer: list the listening TCP ports, check one,
kill the process bound to it, or browse them in an interactive viewer.

- `src/` is the verified library (Verus):
  - `text` — splitting into words and lines, decimal numbers, substring search;
  - `i18n` — the display language and the English/Japanese choice;
  - `config` — the settings and the `config <key> <value>` command;
  - `cli` — what the command line asks for;
  - `port` — port entries, lookup and the stable sort by port;
  - `platform::macos` — reading the `lsof` and `ps` listings;
  - `display` — the lines the commands print, as styled runs of text;
  - `tui::app`, `tui::handler` — the viewer's state and what each key does.
- `app/` is the program around it: argument parsing, the settings file,
  running `lsof`, `ps` and `kill`, printing, and the terminal loop.
- `tests/` runs the library on concrete inputs.
