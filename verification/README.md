# o324 daemon — verified core

The daemon of the o324 time tracker, split in two crates:

- `src/` — the library, verified with Verus: the task, activity and prefix
  index models, the decisions the daemon takes for each request (which
  writes a transaction makes, what a window event does to the tracked
  activity, what a supervisor does after an attempt), the parsers of the
  records that compositors and the process table report, and the layout of
  the record shared between processes. Every public function states what it
  returns in its contract, except where the result rests on the clock
  (`unix_now_ms`), on std's platform-dependent hashing (`get_hash`), or on a
  map shared and changed through shared references (`InMemoryCache`); the
  `law_*` proof functions state the properties that hold across calls.
- `app/` — the program around it: command line, configuration file, the
  native_db store, the D-Bus service, the window providers, the supervisor
  and the status command. It hands plain values to the library and performs
  the writes and reads the library decides.

`tests/` runs the library on concrete values.
