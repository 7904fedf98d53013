# pg_replicate

The decisions of a client for Postgres logical replication, and of a sink for what it
replicates, verified with Verus.

- `src/` is the library: the texts of the queries, the meaning of the replies, the runs that
  find or make a slot and that read table schemas, the settings of a connection, and the
  state of the notification sink. It sends and receives nothing.
- `app/` performs what the library decides: it reads the environment, connects, sends the
  queries, hands the replies back, and calls the listener of the sink. It needs a build of
  `tokio_postgres` with replication support, and `postgres_replication`.
- `tests/` runs the library on given values.

What is not proved is stated at the functions that call other crates: the quoting of
`pg_escape`, the text form of a log position and the table of built-in types of
`tokio_postgres`. The error type of `tokio_postgres` is carried through as it is.
