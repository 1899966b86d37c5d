# shortest_url

A URL shortener. A stored URL gets a numeric key from the database; its slug is
the key written in base 62, least significant digit first, with `0-9a-zA-Z`.

- `src/` is the verified library:
  - `base62`: digits, conversion between numbers, digits and text, and the laws
    that tie them together (round trips, canonical form, distinct slugs);
  - `text`: white space, trimming, decimal numbers;
  - `config`, `server_config`, `settings`: the settings of the three servers,
    their defaults, connection strings and where settings are read from;
  - `uri`: the `http` crate's URI parser and writer, behind a trusted wrapper;
  - `actions`: the steps of looking up and storing a URL;
  - `reply`, `urls`, `routes`, `health_checks`: what each HTTP handler answers,
    given what the database said.
- `app/` runs the servers (the URL service by default; `web-server` or
  `health-service` as first argument for the others): settings from files and
  environment, logging, the database queries (sqlx), and HTTP (warp and axum).
- `tests/` exercises the library.
