# pnpro

The logic of a cleanroom particle-monitoring service, written in Verus: every
function in `src/` carries a `requires`/`ensures` contract that Verus proves.

- `src/` – the verified library
  - `text`: string and number helpers
  - `db`: database settings, the SQL script splitter, password hashing
  - `license`: license codes, their check and activation
  - `modbus`: CRC-16, Modbus TCP/RTU frames, poll plans and the poll steps
  - `audit`: which requests are audited and the action each maps to
  - `server`: users, tokens and the menu route tree
  - `syslog`: the bounded, newest-first log store
  - `pharma`: sensors, limits, device configuration and alarm statuses
  - `report`: report kinds, CSV export, SDA tables
  - `sysops`: roles, password policy, backups, facility tree
  - `tree`: the forest builder behind the menu and facility trees
- `tests/` – tests of the library on concrete values.
- `app/` – the HTTP server, database access, sockets and serial ports that drive
  the library (ordinary Rust, not verified).

Calls into the `md5`, `base64` and `chrono` crates and into a few std functions
sit behind small trusted wrappers whose contracts name or state what those
functions return.
