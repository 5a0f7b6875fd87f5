# readql

A read-only SQLite HTTP query server. It executes SQL queries over HTTP and streams the
results as RFC 4180 CSV or as Apache Parquet.

The logic is a library verified with [Verus](https://github.com/verus-lang/verus); what
talks to the network and to SQLite is ordinary Rust around it.

## Layout

- `src/` is the verified library.
  - `value`, `text`, `double`: column values, text operations, and doubles by their bits.
  - `csv`, `rfc4180`: how values are written as CSV, and why that reads back.
  - `schema`, `cell`: the types of columns, and what values become in them.
  - `columns`, `parquet_file`: the Arrow and Parquet crates, and what is relied on of them.
  - `limits`: how large a Parquet file can become.
  - `parquet_format`, `export`: record batches, and how rows are grouped into them.
  - `stream`, `body`: query results as chunks, and how the body of a response ends.
  - `handlers`, `db`, `error`, `ui`: what a request asks for, and how it is answered.
  - `clients`, `metrics`: the server's statistics.
- `tests/` holds the tests of the library.
- `app/` is the server: arguments, HTTP, SQLite, and everything in floating point.

## HTTP API

| Request | Response |
| :--- | :--- |
| `GET /?sql=...` | The result of the query as CSV, or as Parquet where the `Accept` header asks for it |
| `GET /?sql=...&format=csv` | The result as CSV |
| `GET /?sql=...&format=parquet` | The result as Parquet (`pq` for short) |
| `GET /api/metrics` | The server's statistics in JSON |

The web UI listens on a port of its own.
