# sysdx

A terminal manager for systemd units: browse the units of the user or the
system instance, filter them by fuzzy search and by type, read their status,
journal and unit file, and start, stop, enable or mask them.

- `src/` is the verified library: parsing of `systemctl` output, the unit list
  and its navigation, fuzzy ranking (scores from `nucleo-matcher`), key
  handling, the colour theme, the merging of the settings file over the
  defaults, and the application state machine, which answers each key, tick
  and finished job with the next state and the jobs to start.
- `app/` is the program around it: the terminal, the event loop, running
  `systemctl`/`journalctl`, reading the settings file, and drawing.
- `tests/` exercises the library on concrete values.
