# duckdb_sink

A sink that writes batches of events to a table of a DuckDB database.

- `src/` decides: where an endpoint points, which batches become requests, in
  which order a batch is written, how a call is answered and which failures are
  worth another attempt. It is verified with Verus.
- `app/` performs: it opens databases, runs transactions on a blocking task and
  offers the sink as a `tower` service. A pipeline plugs in its events, its
  Arrow serializer and its telemetry through the traits in `app/model.rs`.
- `tests/` runs the library on concrete values.

`app/` links against an installed `libduckdb`.
