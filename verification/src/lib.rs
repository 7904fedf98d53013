//! A client and a sink for Postgres logical replication, without the wire.
//!
//! The library decides what is sent to the server, what its replies mean and what is remembered
//! between two replies. Sending, receiving and waiting are left to the caller.
//!
//! - `queries` holds the texts of the queries, `query_laws` what a server reads in them, and
//!   `quote` the quoting that both rest on.
//! - `message` models the replies, `replies` says what each of them means, and `reply_laws` what
//!   holds of that for every reply.
//! - `client` keeps track of the transaction; `slot` and `schemas` are runs of several requests,
//!   one reply at a time; `connect` settles a connection.
//! - `sink` reads batches of changes and remembers the committed position.
//! - `table`, `lsn`, `error` and `text` hold what the others share.

pub mod client;
pub mod connect;
pub mod error;
pub mod lsn;
pub mod message;
pub mod queries;
pub mod query_laws;
pub mod quote;
pub mod replies;
pub mod reply_laws;
pub mod schemas;
pub mod sink;
pub mod slot;
pub mod table;
pub mod text;
