# lore-auth

A standalone authentication and permission service for
[EpicGames Lore](https://github.com/EpicGames/lore): users log in with name and password
in a browser, Lore clients get signed tokens, and an administrator manages users, grants
and repositories on a web console.

- `src/` is the library: the tables and what may be done to them, tokens and their claims,
  login sessions, the answers of the gRPC API, the pages of the console, the settings and
  the commands. Every function has a contract that Verus proves, except those marked
  `external_body`; what holds of several functions together stands in `db_laws`,
  `service_laws` and `web_laws`, and beside the functions in `keys`, `json`, `html`,
  `password`, `settings`, `sorting`, `lore_admin` and `commands`.
- `tests/` runs the library.
- `app/` is the program around it: command line, SQLite file, key files, HTTP server and
  gRPC handlers.

What the library takes from other crates is stated, and not proved, by the functions
marked `external_body`: Argon2 hashes, RSA keys and RS256 tokens, BLAKE3, base64, JSON,
percent-encoding, dates, random identifiers, and the clock.
