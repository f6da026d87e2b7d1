# bar_library_api

A recipe library for a bar: users with permissions, recipes with their
ingredient lines, per-user kitchens and favorites, served over HTTP with a
PostgreSQL store.

- `src/` is the verified library (Verus). It holds the request and row
  types, the permission bit set, password hashing and checking (through
  `bcrypt`), fresh identifiers (through `uuid`), recipe assembly and search,
  and, for every handler, the decision it takes after each database round
  trip, as a step function or a small state machine with its laws.
- `app/` is the HTTP service: actix-web handlers that run those state
  machines against a `sqlx` PostgreSQL pool, the serde copies of the request
  types, and server start-up.
- `tests/` exercises the library on concrete values.
