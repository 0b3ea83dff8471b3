# circadian

Idle detection for a Linux machine, as a verified library and a small daemon.

- `src/` — the library, verified with Verus:
  - `text`, `number`: character-level text handling, and decimal numbers
    read and written as the standard library does;
  - `wtime`: idle times as `w` prints them, matched with `regex`;
  - `x11`: the per-display X11 idle probes;
  - `idle`: combining the input probes into the time still to wait;
  - `nonidle`: the checks that block idleness (CPU load, sessions, sound,
    processes);
  - `config`: the INI configuration, read through `rust-ini`;
  - `report`: the summary lines;
  - `daemon`: start-up checks, sleeping and the watchdog.
- `app/` — the daemon: runs the commands, reads the files, sleeps, and
  handles signals and floating-point load figures.
- `tests/` — tests of the library.
