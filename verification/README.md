# herdr_profiles

Chrome-style profiles for [Herdr](https://herdr.dev): a profile is a Herdr
named session with its own spaces and agents, listed in a popup and opened in
a new terminal window.

The library in `src/` is written in Verus. Every operation states what it
returns in its contract, and Verus proves the code against it:

- `settings`: profile names, references and what `profiles.json` holds.
- `herdr`: the Herdr installation, its commands, and what it reports.
- `keybinding`: the chooser's key in Herdr's `config.toml`; `keybinding_laws`
  proves that writing the key block and reading it back agree.
- `launcher`: the command that opens a profile in a terminal window.
- `profiles`: the chooser's rows and the operations on saved profiles.
- `theme`: the popup colors, resolved the way Herdr resolves its palette.
- `popup`, `socket`: opening the popup over Herdr's socket, with retries.
- `ui`: the chooser itself: what it shows and what each key does.
- `cli`: the decisions of `setup` and `list`.
- `laws`: properties that span several calls.
- `text`: the character-level operations the rest is built on.

`app/` is the program around the library: the command line, files, processes,
the socket and the terminal. `tests/` runs the library on concrete cases.
