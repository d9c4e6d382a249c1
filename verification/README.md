# asma

The logic of the Ark Server Manager: Ascended as a Verus-verified library,
with a small command-line program around it.

- `src/` — the verified library. Each module states its behaviour in
  `requires`/`ensures` over spec functions and views, and the laws that tie
  functions together are public proof functions:
  - `rcon`: the RCON packet format, packet ids and the handshake decisions;
  - `config`: metadata, setting values, their text form and parsing, and the
    merge of built-in and user metadata;
  - `command_line`, `ini_plan`, `ini_document`: the server's command line, the
    edits that bring its INI files in line with its settings (applied to a
    `rust-ini` document), and reading settings back from INI rows;
  - `server`, `version`, `monitor`, `mods`: Steam manifests, SteamCMD output,
    the version in the server executable, the monitor's decisions (with the
    law that a stopped server reports stopping until it exits), mod update
    checks and the summaries on a server's card;
  - `editor`, `profile`: the setting editor, profile edits and what closing
    the settings dialog does;
  - `self_update`, `packaging`, `global`, `certs`: self-update steps, release
    file names, application settings and the bundled certificate blocks;
  - `text`, `parse`, `matching`: text helpers, std-compatible parsers and the
    trusted wrapper around `regex`.
- `tests/` — tests of the library on concrete values.
- `app/` — the command-line program: files, processes (through `sysinfo`),
  TCP, HTTP (`reqwest`, and `curseforge` for mod projects), archives (`zip`)
  and JSON.
