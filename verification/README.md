# leader

Which-key style leader popups for tmux and kitty: press a key, see a grid of actions, pick
one by its key; pill strips for windows, sessions, panes, tabs and launcher apps, with fuzzy
filtering in the list pickers.

- `src/` is the verified library (Verus): argument and `tmux list-*` parsing, the key trees,
  the UI state and what every key event does to it, the fuzzy filter, the pill and grid
  layout, the theme file, and the `tmux` / `kitten @` command plans of each action. Laws
  that span several calls (Tab then Shift-Tab, typing then Backspace, filter uniqueness,
  window ids reading back) are public proof functions beside the code they speak of.
- `app/` is the program around it: terminal drawing with ratatui, reading keys, running
  `tmux`, `kitten`, `git` and `kubectl`, and reading the theme and `kitten @ ls` JSON with
  serde. Run as `tmux-leader` it is the tmux popup; under any other name, the kitty overlay.
- `tests/` exercise the library on concrete values.
