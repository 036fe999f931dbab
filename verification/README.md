# tray_node

The core of the Tray Node server as a verified library: the parsers of the
system's `/proc` files, the IP address utilities, the HTTP status and error
tables, the configuration and its normalisation, the access-control lists,
the loading of a theme's description and the sorting of its files, the
upload bookkeeping, the event, hook, middleware and instance registries,
the server's counters and memory-cleaner schedule, when cached readings of
the system are refreshed, and the decisions of the control channel, each
with a contract proved by Verus.

- `src/` — the library; every function in it is verified, and the calls
  into outside crates (`lz4_flex`, `redis`, `path-clean`) and into a few
  std functions go through small trusted wrappers whose contracts state
  what the called code's source or documentation shows of it, and no more.
- `tests/` — tests of the library on concrete values.
- `app/` — the command-line program around the library: it reads the
  process environment, files and sockets, parses YAML and JSON, and does
  the floating-point arithmetic, and hands plain values to the library;
  the timers and locks around the cached readings of the system stay there
  too.
