# waveless_sql

SQL executors, authentication methods and schema-driven endpoint generation for
Waveless, written in Verus. The library decides what runs and what comes back;
the I/O around it (the database, the clock, configuration files) is in `app/`.

- `src/http_executor/query.rs` — queries and their options (`included`,
  behaviour), the wrapper a configuration holds and its builders, and how a
  single query text splits into statements.
- `src/http_executor/mysql.rs`, `src/http_execute/` — the executors, and in
  `any_sql.rs` how a query template becomes a statement with bound values
  (`{name}` placeholders, `|name|` runtime values, PUT column stripping) and how
  the rows of the queries, run one after the other, make the response.
- `src/auth/` — name & password authentication, token sessions and roles: the
  statements they send and how they read the rows that come back.
- `src/generator/mysql.rs` — the CRUD endpoints of a discovered schema.
- `src/text.rs`, `src/request.rs`, `src/pattern.rs` — text operations, request
  parameters, and the regular expressions used to strip a column.

Each public function states its result exactly in its `ensures`; the laws that
relate several functions are the `law_*` proof functions. Calls into `regex`,
`rand`, `chrono`, `crc32fast` and `str::to_lowercase` go through small trusted
wrappers whose contracts say what those functions return.
