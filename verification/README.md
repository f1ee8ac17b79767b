# batrs

The core of a BatMUD client, written in Verus: each function states what it
does in its `requires` / `ensures`, and Verus proves it.

- `src/` is the verified library: ANSI text styling and wrapping, the telnet
  line buffer, command dispatch and generic commands, automation (flags,
  variables, templates, waiters), combat awareness and scan rows, input
  editing and history, submitting the command line, scrollback, session login tracking, the player
  configuration formats, and the combat damage recorder (hit matching,
  attribution of lost hit points, per-verb tallies, table sorting, and the
  HTML of its viewer).
- `app/` is the program around it: a line-mode client that connects to
  BatMUD (telnet socket, standard input and output), the SQLite database, the
  HTTP viewer, configuration and log files, and the floating-point averages
  and weights. What a guild's own commands answer is described by the `Guild`
  trait, which each guild implements.
- `tests/` runs the library on concrete values.

The viewer listens on `127.0.0.1:6464` unless `--port` says otherwise.
