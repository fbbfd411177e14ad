# omniroute

The OmniRoute desktop shell spawns the OmniRoute Next.js server (or connects
to a remote one), shows it in a window, and keeps a tray menu. This crate is
its core, written in Verus: the shell's rules (the env-file format, the
secrets bootstrap, the remote-server URL rules, the server's start-up,
restart and port-change plans, the tray menu, the IPC answers and the login
flow) are functions with proved contracts. What needs the outside world
(windows, processes, files, HTTP, randomness, the URL parser, the RAM size)
is left to `app/` or to a few trusted calls whose contracts are stated, not
proved.

- `src/` — the verified library.
  - `text`, `paths`, `env_map`: text helpers, planned paths, and the
    environment map (a `Vec` of unique keys viewed as a `Map`).
  - `env_file`: the `KEY=VALUE` format, its parser and the `server.env`
    rendering, with the round-trip law.
  - `random_hex`, `env_bootstrap`, `secrets`: the generation of missing
    secrets, the merge of `server.env`, the preferred `.env` and the process
    environment, and the law that generated secrets survive a restart.
  - `remote_server`, `server`, `state`, `tray`, `window`, `ipc`, `login`,
    `autostart`: the remote-server URL rules, the embedded server's start-up,
    restart, port-change and remote-switch plans, the shell state, the tray menu, the IPC answers, the login
    flow's state machine and the Linux autostart entry.
- `tests/` — tests of the library on concrete values.
- `app/` — the Tauri application around the library: windows, tray, process
  spawning, files, HTTP and the environment.
