# cyberdesk

The logic of the CyberDesk browser shell, as a Verus library whose
functions carry machine-checked contracts.

- `src/` — the verified library: the window workspace and its saved
  session, the start-up lock, keyboard routing, the command band, the
  settings and their stored rows, the internal pages' requests, search and
  identity handling, the Tor engine's state and SOCKS5 handshake, the cache
  purge decisions, the log ring, appearance tokens and the browser policy
  tables. Each module states its rules as spec functions; the public
  `law_*` proof functions state the properties that hold across calls.
- `tests/` — tests of the library on concrete values.
- `app/` — the host program around it: start-up, the SQLite state store,
  the log file and ring, the file-system side of the purge, the theme file,
  and the decoding of request JSON.
