# battleverse_launcher

The verified core of the Battleverse Minecraft launcher, written in Verus.

- `src/` — the library, every function verified:
  - `text` — character-level string operations (find, replace, trim, split, join, decimal digits);
  - `json` — JSON documents as plain values and the accessors the launcher reads them through;
  - `version` — what a Minecraft version document asks of a Windows machine: OS rules,
    library paths, JVM and game arguments with their placeholders filled in;
  - `launch` — the game's class path and command line, and the launch decision;
  - `system` — power plan commands, reading `powercfg` output, the game session's steps;
  - `remote` — service addresses, server status and login replies, MediaFire links;
  - `config` — settings, the installed modpack version, the folder chooser script;
  - `install` — the modpack installation as a state machine driven by its caller;
  - `progress` — progress reports;
  - `laws` — properties that hold across these operations, proved.
- `tests/` — tests of the library on concrete values.
- `app/` — the command host around the library: file system, network, processes and
  Windows calls.
