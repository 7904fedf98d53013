//! The state that the client keeps between two requests.

use vstd::prelude::*;

use crate::error::{request_failed, ClientErrorView, ReplicationClientError};
use crate::message::{reply_view, QueryMessage, QueryReply, ReplySpec};

verus! {

/// A client for Postgres logical replication.
#[derive(Debug)]
pub struct ReplicationClient {
    /// Whether the client has a transaction open.
    pub in_txn: bool,
}

/// The query that opens a transaction which only reads, at the isolation level repeatable read.
pub const BEGIN_READONLY: &'static str = "begin read only isolation level repeatable read;";

/// The query that commits a transaction.
pub const COMMIT: &'static str = "commit;";

/// The query that rolls a transaction back.
pub const ROLLBACK: &'static str = "rollback;";

/// What is sent to end a transaction: the query if one is open, else nothing.
pub open spec fn ending_query(in_txn: bool, query: Seq<char>) -> Option<Seq<char>> {
    if in_txn {
        Some(query)
    } else {
        None
    }
}

/// Whether a transaction is open after the answer to the start of one.
pub open spec fn open_after_begin(in_txn: bool, reply: ReplySpec) -> bool {
    in_txn || reply is Ok
}

/// Whether a transaction is open after the answer to what was sent to end it.
pub open spec fn open_after_end(in_txn: bool, reply: Option<ReplySpec>) -> bool {
    in_txn && reply matches Some(Err(_))
}

/// The error of ending a transaction, given the answer to what was sent for it.
pub open spec fn end_error(in_txn: bool, reply: Option<ReplySpec>) -> Option<ClientErrorView> {
    match reply {
        Some(Err(e)) if in_txn => Some(request_failed(e)),
        _ => None,
    }
}

/// The answer to a query that may not have been sent.
pub open spec fn optional_view(reply: Option<QueryReply>) -> Option<ReplySpec> {
    match reply {
        Some(reply) => Some(reply_view(reply)),
        None => None,
    }
}

/// A transaction that was started is ended by one request: after it nothing more is sent to end
/// it, by commit or by rollback. Where that request fails, it is sent again the next time.
pub proof fn law_transaction_ends_once(
    in_txn: bool,
    started: ReplySpec,
    ended: ReplySpec,
    query: Seq<char>,
    other: Seq<char>,
)
    requires
        started is Ok,
    ensures
        ({
            let open = open_after_begin(in_txn, started);
            let after = open_after_end(open, Some(ended));
            &&& ending_query(open, query) == Some(query)
            &&& ended is Ok ==> ending_query(after, query) is None && ending_query(
                after,
                other,
            ) is None
            &&& ended is Err ==> ending_query(after, query) == Some(query)
        }),
{
}

/// Ending a transaction where none is open sends nothing, succeeds, and changes nothing.
pub proof fn law_nothing_to_end(query: Seq<char>)
    ensures
        ending_query(false, query) is None,
        !open_after_end(false, None),
        end_error(false, None) is None,
{
}

/// Ending a transaction fails exactly where one is open and the request for it failed, and then
/// with the error of that request. A request that succeeded, whatever messages came with it,
/// is no error.
pub proof fn law_ending_fails_only_with_its_request(
    in_txn: bool,
    reply: Option<ReplySpec>,
    messages: Seq<QueryMessage>,
    e: tokio_postgres::Error,
)
    ensures
        end_error(in_txn, reply) is Some <==> in_txn && reply matches Some(Err(_)),
        end_error(in_txn, Some(Ok(messages))) is None,
        end_error(true, Some(Err(e))) == Some(request_failed(e)),
        end_error(false, reply) is None,
        end_error(in_txn, None) is None,
{
}

/// A transaction stays open exactly where ending it failed: a request that succeeded, whatever
/// messages came with it, ends it.
pub proof fn law_transaction_stays_open_after_a_failure(
    in_txn: bool,
    reply: Option<ReplySpec>,
    messages: Seq<QueryMessage>,
    e: tokio_postgres::Error,
)
    ensures
        open_after_end(in_txn, reply) <==> end_error(in_txn, reply) is Some,
        !open_after_end(in_txn, Some(Ok(messages))),
        open_after_end(in_txn, Some(Err(e))) == in_txn,
        !open_after_end(false, reply),
{
}

/// A transaction is open after its start exactly where the start succeeded, whatever messages
/// came with it, or one was open before.
pub proof fn law_transaction_starts(
    in_txn: bool,
    messages: Seq<QueryMessage>,
    e: tokio_postgres::Error,
)
    ensures
        open_after_begin(in_txn, Ok(messages)),
        open_after_begin(in_txn, Err(e)) == in_txn,
{
}

/// The query that ends a transaction is sent as it is, and exactly where one is open.
pub proof fn law_ending_query(in_txn: bool, query: Seq<char>)
    ensures
        ending_query(in_txn, query) is Some <==> in_txn,
        ending_query(in_txn, query) matches Some(sent) ==> sent == query,
{
}

/// The queries that start and end a transaction.
pub proof fn law_transaction_queries()
    ensures
        BEGIN_READONLY@ == "begin read only isolation level repeatable read;"@,
        COMMIT@ == "commit;"@,
        ROLLBACK@ == "rollback;"@,
{
}

/// The answer to a query that was sent is that answer; there is none where nothing was sent.
pub proof fn law_optional_view(reply: QueryReply)
    ensures
        optional_view(None) is None,
        reply matches Ok(messages) ==> optional_view(Some(reply)) == Some::<ReplySpec>(
            Ok(messages@),
        ),
        reply matches Err(e) ==> optional_view(Some(reply)) == Some::<ReplySpec>(Err(e)),
{
}

impl ReplicationClient {
    /// A client that has just connected: it has no transaction open.
    pub fn new() -> (r: ReplicationClient)
        ensures
            !r.in_txn,
    {
        ReplicationClient { in_txn: false }
    }

    /// The query that starts a read-only transaction with repeatable read isolation level.
    pub fn begin_readonly_transaction_query() -> (r: String)
        ensures
            r@ == BEGIN_READONLY@,
    {
        BEGIN_READONLY.to_owned()
    }

    /// Takes note of the answer to the start of a transaction: it is open if the request did
    /// not fail.
    pub fn begin_readonly_transaction(&mut self, reply: QueryReply) -> (r: Result<
        (),
        ReplicationClientError,
    >)
        ensures
            final(self).in_txn == open_after_begin(old(self).in_txn, reply_view(reply)),
            match reply {
                Err(e) => r matches Err(x) && x@ == request_failed(e),
                Ok(_) => r is Ok,
            },
    {
        match reply {
            Err(e) => Err(ReplicationClientError::from(e)),
            Ok(_) => {
                self.in_txn = true;
                Ok(())
            },
        }
    }

    /// What is sent to commit: nothing where no transaction is open.
    pub fn commit_txn_query(&self) -> (r: Option<String>)
        ensures
            match ending_query(self.in_txn, COMMIT@) {
                Some(query) => r matches Some(x) && x@ == query,
                None => r is None,
            },
    {
        if self.in_txn {
            Some(COMMIT.to_owned())
        } else {
            None
        }
    }

    /// Commits a transaction, given the answer to what was sent for it.
    pub fn commit_txn(&mut self, reply: Option<QueryReply>) -> (r: Result<
        (),
        ReplicationClientError,
    >)
        requires
            old(self).in_txn ==> reply is Some,
        ensures
            final(self).in_txn == open_after_end(old(self).in_txn, optional_view(reply)),
            match end_error(old(self).in_txn, optional_view(reply)) {
                Some(e) => r matches Err(x) && x@ == e,
                None => r is Ok,
            },
    {
        self.end_txn(reply)
    }

    /// What is sent to roll back: nothing where no transaction is open.
    pub fn rollback_txn_query(&self) -> (r: Option<String>)
        ensures
            match ending_query(self.in_txn, ROLLBACK@) {
                Some(query) => r matches Some(x) && x@ == query,
                None => r is None,
            },
    {
        if self.in_txn {
            Some(ROLLBACK.to_owned())
        } else {
            None
        }
    }

    /// Rolls a transaction back, given the answer to what was sent for it.
    pub fn rollback_txn(&mut self, reply: Option<QueryReply>) -> (r: Result<
        (),
        ReplicationClientError,
    >)
        requires
            old(self).in_txn ==> reply is Some,
        ensures
            final(self).in_txn == open_after_end(old(self).in_txn, optional_view(reply)),
            match end_error(old(self).in_txn, optional_view(reply)) {
                Some(e) => r matches Err(x) && x@ == e,
                None => r is Ok,
            },
    {
        self.end_txn(reply)
    }

    fn end_txn(&mut self, reply: Option<QueryReply>) -> (r: Result<(), ReplicationClientError>)
        requires
            old(self).in_txn ==> reply is Some,
        ensures
            final(self).in_txn == open_after_end(old(self).in_txn, optional_view(reply)),
            match end_error(old(self).in_txn, optional_view(reply)) {
                Some(e) => r matches Err(x) && x@ == e,
                None => r is Ok,
            },
    {
        if self.in_txn {
            if let Some(Err(e)) = reply {
                return Err(ReplicationClientError::from(e));
            }
            self.in_txn = false;
        }
        Ok(())
    }
}

} // verus!
