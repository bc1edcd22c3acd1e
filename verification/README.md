# db_client

The core of a desktop database client (PostgreSQL and SQLite), verified with
Verus.

- `src/` — the library, every function with a contract proved by Verus:
  - `connections`: saved connections and their store (save by name, update,
    remove, duplicate), with laws on saving by name: it keeps the
    connection, is idempotent and keeps names unique.
  - `state`: query results with lazy paging, and the client's state
    transitions (connecting, testing a connection, running and cancelling a
    query, browsing a table, fetching the next page).
  - `db`: the backends' shared error type and interface, the paging SQL,
    and each backend's own rules (`db::postgres`, `db::sqlite`).
  - `sample`: the synthetic 100 000-row result.
  - `text`: decimal rendering, trimming, port parsing, case-insensitive
    comparison.
  - `ui::data_grid`: the results footer line.
- `app/` — the program: the gpui window, the database connections, reading
  and writing the saved connections, and background threads.
- `tests/` — tests of the library on concrete values.
