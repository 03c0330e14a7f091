# khm — known-hosts manager

A tool that keeps SSH `known_hosts` files in sync through a central key server.
Clients send the host keys they know to a flow on the server and can write back
the flow's keys; administrators retire, restore and delete keys per host.

## Layout

- `src/` — the library, verified with Verus. The decisions of the server, the
  command-line client, the desktop client and the web console live here with their
  contracts; the drawing of the graphical interfaces does not:
  - `keys` — the key record, the `known_hosts` line format (with the round-trip
    law), key-format validation, key type and preview;
  - `db` — the SQL the store sends for a batch and to prepare its tables, how a
    batch divides into new, unchanged and retired keys, how stored rows group into
    flows, and the steps of a permanent deletion;
  - `server`, `web` — the answers of the HTTP API;
  - `api` — endpoint addresses, request headers, judging responses;
  - `settings`, `args` — desktop settings, `~` expansion, command-line options and
    the choice of what a run does;
  - `connection`, `activity`, `tray`, `admin`, `web_admin` — the state of the
    desktop and web interfaces and how results update it;
  - `text`, `clock` — character-sequence utilities and clock readings.
- `tests/` — tests on concrete values.
- `app/` — the program around the library: command-line parsing, files, HTTP
  server and client, PostgreSQL and DNS.

## What this build does not include

The graphical modes (`--gui` with its tray icon, and `--settings-ui`) are not part
of this build: the windowing and tray toolkits they draw with are not among its
dependencies. Started in one of these modes, the program says so, reports the
configured host and flow, and exits. The decisions behind those windows (settings
validation, connection tests, sync countdown, activity log, key administration)
are in the library and are verified there.
