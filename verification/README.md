# no-more-termius

A keyboard-driven terminal UI to manage and open SSH connections, with a
dual-pane SFTP browser. Connections live in a plain TOML file
(`~/.config/no-more-termius/connections.toml`); connecting runs the system
`ssh`.

## Layout

- `src/` — the library, verified with Verus: the screens (connection list,
  form, key picker, SFTP browser, help) as state machines that take a key or
  an event and return their next state and the work they need done; the
  ssh-config reader; the ssh argument list; the pane sorting and fuzzy
  filtering; the terminal-graphics escape sequences; the decisions taken
  while a session is opened (host keys, login order).
- `app/` — the program: terminal input and drawing (ratatui), the store file
  (serde/toml), the SSH/SFTP worker thread (ssh2), local filesystem work,
  and running `ssh`.
- `tests/` — tests of the library.
