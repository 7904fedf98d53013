//! Finding a replication slot, or making it: a run of requests, one reply at a time.

use vstd::prelude::*;

use crate::client::{ReplicationClient, BEGIN_READONLY, ROLLBACK};
use crate::error::{request_failed, ClientErrorView, ReplicationClientError};
use crate::lsn::{lsn_text, PgLsn};
use crate::message::{reply_view, value_named, QueryMessage, QueryReply, ReplySpec};
use crate::queries::{slot_creation, slot_query};
use crate::quote::quoted_identifier;
use crate::replies::{created_slot_in_reply, first_row_readable, slot_in_reply, SlotInfo};
use crate::reply_laws::{
    is_first_row, law_slot_is_missing_without_a_row, law_slot_is_not_created_without_a_row,
    law_written_slot_is_read, some_row, text_value,
};

verus! {

/// What the run waits for.
#[derive(Debug)]
pub enum SlotStep {
    /// The answer to the query for the slot.
    LookUp,
    /// The end of the open transaction.
    RollBack,
    /// The start of a new transaction.
    Begin,
    /// The making of the slot.
    Create,
    /// Nothing more.
    Done(Result<SlotInfo, ReplicationClientError>),
}

/// What the run waits for, with the error as a view.
pub enum SlotStepView {
    LookUp,
    RollBack,
    Begin,
    Create,
    Done(Result<SlotInfo, ClientErrorView>),
}

impl View for SlotStep {
    type V = SlotStepView;

    open spec fn view(&self) -> SlotStepView {
        match self {
            SlotStep::LookUp => SlotStepView::LookUp,
            SlotStep::RollBack => SlotStepView::RollBack,
            SlotStep::Begin => SlotStepView::Begin,
            SlotStep::Create => SlotStepView::Create,
            SlotStep::Done(Ok(slot)) => SlotStepView::Done(Ok(*slot)),
            SlotStep::Done(Err(e)) => SlotStepView::Done(Err(e@)),
        }
    }
}

/// A run that returns an existing slot, or makes it in a transaction of its own.
#[derive(Debug)]
pub struct SlotRun {
    pub slot_name: String,
    pub step: SlotStep,
}

/// What is sent at a step.
pub open spec fn slot_request(slot_name: Seq<char>, step: SlotStepView) -> Option<Seq<char>> {
    match step {
        SlotStepView::LookUp => Some(slot_query(slot_name)),
        SlotStepView::RollBack => Some(ROLLBACK@),
        SlotStepView::Begin => Some(BEGIN_READONLY@),
        SlotStepView::Create => Some(slot_creation(quoted_identifier(slot_name))),
        SlotStepView::Done(_) => None,
    }
}

/// What a reply leads to: the next step, and whether a transaction is open then.
pub open spec fn slot_next(step: SlotStepView, in_txn: bool, reply: ReplySpec) -> (
    SlotStepView,
    bool,
) {
    match step {
        SlotStepView::LookUp => match slot_in_reply(reply) {
            Err(e) => (SlotStepView::Done(Err(e)), in_txn),
            Ok(Some(slot)) => (SlotStepView::Done(Ok(slot)), in_txn),
            Ok(None) => (
                if in_txn {
                    SlotStepView::RollBack
                } else {
                    SlotStepView::Begin
                },
                in_txn,
            ),
        },
        SlotStepView::RollBack => match reply {
            Err(e) if in_txn => (SlotStepView::Done(Err(request_failed(e))), true),
            _ => (SlotStepView::Begin, false),
        },
        SlotStepView::Begin => match reply {
            Err(e) => (SlotStepView::Done(Err(request_failed(e))), in_txn),
            Ok(_) => (SlotStepView::Create, true),
        },
        SlotStepView::Create => (SlotStepView::Done(created_slot_in_reply(reply)), in_txn),
        SlotStepView::Done(_) => (step, in_txn),
    }
}

/// Whether the columns that a step reads of a reply are there and can be read.
pub open spec fn slot_reply_readable(step: SlotStepView, reply: ReplySpec) -> bool {
    match step {
        SlotStepView::LookUp => first_row_readable(reply, "confirmed_flush_lsn"@),
        SlotStepView::Create => first_row_readable(reply, "consistent_point"@),
        _ => true,
    }
}

impl ReplicationClient {
    /// Starts to find a slot, or to make it where there is none.
    pub fn get_or_create_slot(slot_name: &str) -> (r: SlotRun)
        ensures
            r.slot_name@ == slot_name@,
            r.step@ == SlotStepView::LookUp,
    {
        SlotRun { slot_name: slot_name.to_owned(), step: SlotStep::LookUp }
    }
}

impl SlotRun {
    /// What is to be sent next; nothing where the run is at its end.
    pub fn next_query(&self) -> (r: Option<String>)
        ensures
            match slot_request(self.slot_name@, self.step@) {
                Some(query) => r matches Some(x) && x@ == query,
                None => r is None,
            },
    {
        match &self.step {
            SlotStep::LookUp => Some(ReplicationClient::get_slot_query(self.slot_name.as_str())),
            SlotStep::RollBack => Some(ROLLBACK.to_owned()),
            SlotStep::Begin => Some(ReplicationClient::begin_readonly_transaction_query()),
            SlotStep::Create => Some(
                ReplicationClient::create_slot_query(self.slot_name.as_str()),
            ),
            SlotStep::Done(_) => None,
        }
    }

    /// Whether the columns that are read of a reply are there and can be read.
    pub fn can_read(&self, reply: &QueryReply) -> (r: bool)
        ensures
            r == slot_reply_readable(self.step@, reply_view(*reply)),
    {
        match &self.step {
            SlotStep::LookUp => ReplicationClient::first_row_is_readable(
                reply,
                "confirmed_flush_lsn",
            ),
            SlotStep::Create => ReplicationClient::first_row_is_readable(
                reply,
                "consistent_point",
            ),
            _ => true,
        }
    }

    /// Takes the reply to what was sent last.
    pub fn handle_reply(&mut self, client: &mut ReplicationClient, reply: QueryReply)
        requires
            slot_reply_readable(old(self).step@, reply_view(reply)),
        ensures
            final(self).slot_name@ == old(self).slot_name@,
            (final(self).step@, final(client).in_txn) == slot_next(
                old(self).step@,
                old(client).in_txn,
                reply_view(reply),
            ),
    {
        match &self.step {
            SlotStep::LookUp => {
                self.step = match ReplicationClient::get_slot(reply) {
                    Err(e) => SlotStep::Done(Err(e)),
                    Ok(Some(slot)) => SlotStep::Done(Ok(slot)),
                    Ok(None) => if client.in_txn {
                        SlotStep::RollBack
                    } else {
                        SlotStep::Begin
                    },
                };
            },
            SlotStep::RollBack => {
                self.step = match client.rollback_txn(Some(reply)) {
                    Err(e) => SlotStep::Done(Err(e)),
                    Ok(_) => SlotStep::Begin,
                };
            },
            SlotStep::Begin => {
                self.step = match client.begin_readonly_transaction(reply) {
                    Err(e) => SlotStep::Done(Err(e)),
                    Ok(_) => SlotStep::Create,
                };
            },
            SlotStep::Create => {
                self.step = SlotStep::Done(ReplicationClient::create_slot(reply));
            },
            SlotStep::Done(_) => {},
        }
    }

    /// What came of the run: the slot or the error, once it is at its end.
    pub fn finish(self) -> (r: Option<Result<SlotInfo, ReplicationClientError>>)
        ensures
            match self.step@ {
                SlotStepView::Done(Ok(slot)) => r matches Some(Ok(x)) && x == slot,
                SlotStepView::Done(Err(e)) => r matches Some(Err(x)) && x@ == e,
                _ => r is None,
            },
    {
        match self.step {
            SlotStep::Done(outcome) => Some(outcome),
            _ => None,
        }
    }
}

/// Where a run gets to, with a server that answers the query after `asked` others by
/// `server(asked, query)`, in at most `rounds` requests: the step, whether a transaction is
/// open, and the number of requests made.
pub open spec fn slot_run(
    server: spec_fn(nat, Seq<char>) -> ReplySpec,
    slot_name: Seq<char>,
    step: SlotStepView,
    in_txn: bool,
    asked: nat,
    rounds: nat,
) -> (SlotStepView, bool, nat)
    decreases rounds,
{
    match slot_request(slot_name, step) {
        Some(query) if rounds > 0 => {
            let (next, open) = slot_next(step, in_txn, server(asked, query));
            slot_run(server, slot_name, next, open, asked + 1, (rounds - 1) as nat)
        },
        _ => (step, in_txn, asked),
    }
}

/// The slot that there is, or else the slot that is made, with such a server: the result,
/// whether a transaction is open at the end, and the number of requests made.
pub open spec fn slot_found_or_made(
    server: spec_fn(nat, Seq<char>) -> ReplySpec,
    slot_name: Seq<char>,
    in_txn: bool,
) -> (Result<SlotInfo, ClientErrorView>, bool, nat) {
    match slot_in_reply(server(0, slot_query(slot_name))) {
        Err(e) => (Err(e), in_txn, 1),
        Ok(Some(slot)) => (Ok(slot), in_txn, 1),
        Ok(None) => if in_txn {
            match server(1, ROLLBACK@) {
                Err(e) => (Err(request_failed(e)), true, 2),
                Ok(_) => slot_made(server, slot_name, 2),
            }
        } else {
            slot_made(server, slot_name, 1)
        },
    }
}

/// The slot that is made in a new transaction, when no transaction is open.
pub open spec fn slot_made(
    server: spec_fn(nat, Seq<char>) -> ReplySpec,
    slot_name: Seq<char>,
    asked: nat,
) -> (Result<SlotInfo, ClientErrorView>, bool, nat) {
    match server(asked, BEGIN_READONLY@) {
        Err(e) => (Err(request_failed(e)), false, asked + 1),
        Ok(_) => (
            created_slot_in_reply(
                server(asked + 1, slot_creation(quoted_identifier(slot_name))),
            ),
            true,
            asked + 2,
        ),
    }
}

/// Whatever the server answers, a run ends after four requests at most, with the slot that
/// there is or else the slot that is made.
pub proof fn law_slot_run_ends(
    server: spec_fn(nat, Seq<char>) -> ReplySpec,
    slot_name: Seq<char>,
    in_txn: bool,
)
    ensures
        ({
            let (outcome, open, asked) = slot_found_or_made(server, slot_name, in_txn);
            slot_run(server, slot_name, SlotStepView::LookUp, in_txn, 0, 4) == (
                SlotStepView::Done(outcome),
                open,
                asked,
            )
        }),
{
    reveal_with_fuel(slot_run, 5);
}

/// A slot that exists is returned after one request, and the transaction is left as it was.
pub proof fn law_existing_slot_is_returned(
    server: spec_fn(nat, Seq<char>) -> ReplySpec,
    slot_name: Seq<char>,
    in_txn: bool,
    slot: SlotInfo,
)
    requires
        slot_in_reply(server(0, slot_query(slot_name))) == Ok::<Option<SlotInfo>, ClientErrorView>(
            Some(slot),
        ),
    ensures
        slot_run(server, slot_name, SlotStepView::LookUp, in_txn, 0, 4) == (
            SlotStepView::Done(Ok(slot)),
            in_txn,
            1nat,
        ),
{
    law_slot_run_ends(server, slot_name, in_txn);
}

/// A slot that does not exist is made in a new transaction, which stays open, and a transaction
/// that was open before is rolled back first: if the run returns a slot, these were the
/// requests, and the slot is what the server answered to the last of them.
pub proof fn law_missing_slot_is_made(
    server: spec_fn(nat, Seq<char>) -> ReplySpec,
    slot_name: Seq<char>,
    in_txn: bool,
)
    requires
        slot_in_reply(server(0, slot_query(slot_name))) == Ok::<Option<SlotInfo>, ClientErrorView>(
            None,
        ),
    ensures
        ({
            let (step, open, asked) = slot_run(
                server,
                slot_name,
                SlotStepView::LookUp,
                in_txn,
                0,
                4,
            );
            step matches SlotStepView::Done(Ok(slot)) ==> {
                &&& open
                &&& asked == if in_txn { 4nat } else { 3nat }
                &&& in_txn ==> server(1, ROLLBACK@) is Ok
                &&& server((asked - 2) as nat, BEGIN_READONLY@) is Ok
                &&& created_slot_in_reply(
                    server(
                        (asked - 1) as nat,
                        slot_creation(quoted_identifier(slot_name)),
                    ),
                ) == Ok::<SlotInfo, ClientErrorView>(slot)
            }
        }),
{
    law_slot_run_ends(server, slot_name, in_txn);
}

/// A request for a slot's position that fails ends the run with its error; a slot that is found
/// ends it with that slot; and where there is none, an open transaction is rolled back and else
/// a new one is begun. The transaction is as it was.
pub proof fn law_look_up_step(
    in_txn: bool,
    messages: Seq<QueryMessage>,
    i: int,
    value: u64,
    e: tokio_postgres::Error,
)
    ensures
        slot_next(SlotStepView::LookUp, in_txn, Err(e)) == (
            SlotStepView::Done(Err(request_failed(e))),
            in_txn,
        ),
        is_first_row(messages, i) && value_named(messages[i]->Row_0, "confirmed_flush_lsn"@)
            == text_value(lsn_text(value)) ==> slot_next(
            SlotStepView::LookUp,
            in_txn,
            Ok(messages),
        ) == (
            SlotStepView::Done(Ok(SlotInfo { confirmed_flush_lsn: PgLsn { value } })),
            in_txn,
        ),
        slot_in_reply(Ok(messages)) matches Err(error) ==> slot_next(
            SlotStepView::LookUp,
            in_txn,
            Ok(messages),
        ) == (SlotStepView::Done(Err(error)), in_txn),
        !some_row(messages) && in_txn ==> slot_next(SlotStepView::LookUp, in_txn, Ok(messages)) == (
            SlotStepView::RollBack,
            true,
        ),
        !some_row(messages) && !in_txn ==> slot_next(SlotStepView::LookUp, in_txn, Ok(messages))
            == (SlotStepView::Begin, false),
{
    law_slot_is_missing_without_a_row(messages);
    if is_first_row(messages, i) {
        law_written_slot_is_read(messages, i, value);
    }
}

/// After a rollback that succeeded, whatever messages came with it, no transaction is open and a
/// new one is begun; one that failed ends the run with its error, and leaves the transaction
/// open.
pub proof fn law_roll_back_step(
    in_txn: bool,
    messages: Seq<QueryMessage>,
    e: tokio_postgres::Error,
)
    ensures
        slot_next(SlotStepView::RollBack, in_txn, Ok(messages)) == (SlotStepView::Begin, false),
        slot_next(SlotStepView::RollBack, true, Err(e)) == (
            SlotStepView::Done(Err(request_failed(e))),
            true,
        ),
        slot_next(SlotStepView::RollBack, false, Err(e)) == (SlotStepView::Begin, false),
{
}

/// After a transaction was begun, whatever messages came with it, it is open and the slot is
/// made; a start that failed ends the run with its error, and changes nothing.
pub proof fn law_begin_step(in_txn: bool, messages: Seq<QueryMessage>, e: tokio_postgres::Error)
    ensures
        slot_next(SlotStepView::Begin, in_txn, Ok(messages)) == (SlotStepView::Create, true),
        slot_next(SlotStepView::Begin, in_txn, Err(e)) == (
            SlotStepView::Done(Err(request_failed(e))),
            in_txn,
        ),
{
}

/// The answer to the making of a slot ends the run, with the slot that it holds or with its
/// error, and leaves the transaction as it was.
pub proof fn law_create_step(
    in_txn: bool,
    messages: Seq<QueryMessage>,
    i: int,
    value: u64,
    e: tokio_postgres::Error,
)
    ensures
        slot_next(SlotStepView::Create, in_txn, Err(e)) == (
            SlotStepView::Done(Err(request_failed(e))),
            in_txn,
        ),
        !some_row(messages) ==> slot_next(SlotStepView::Create, in_txn, Ok(messages)) == (
            SlotStepView::Done(Err(ClientErrorView::FailedToCreateSlot)),
            in_txn,
        ),
        is_first_row(messages, i) && value_named(messages[i]->Row_0, "consistent_point"@)
            == text_value(lsn_text(value)) ==> slot_next(
            SlotStepView::Create,
            in_txn,
            Ok(messages),
        ) == (
            SlotStepView::Done(Ok(SlotInfo { confirmed_flush_lsn: PgLsn { value } })),
            in_txn,
        ),
        created_slot_in_reply(Ok(messages)) matches Err(error) ==> slot_next(
            SlotStepView::Create,
            in_txn,
            Ok(messages),
        ) == (SlotStepView::Done(Err(error)), in_txn),
{
    law_slot_is_not_created_without_a_row(messages);
    if is_first_row(messages, i) {
        law_written_slot_is_read(messages, i, value);
    }
}

/// A run that is at its end stays there, and sends nothing; at every other step it sends
/// something: the query for the slot, the rollback, the start of a transaction, or the making
/// of the slot.
pub proof fn law_slot_requests(
    slot_name: Seq<char>,
    outcome: Result<SlotInfo, ClientErrorView>,
    in_txn: bool,
    reply: ReplySpec,
)
    ensures
        slot_request(slot_name, SlotStepView::LookUp) == Some(slot_query(slot_name)),
        slot_request(slot_name, SlotStepView::RollBack) == Some("rollback;"@),
        slot_request(slot_name, SlotStepView::Begin) == Some(
            "begin read only isolation level repeatable read;"@,
        ),
        slot_request(slot_name, SlotStepView::Create) == Some(
            slot_creation(quoted_identifier(slot_name)),
        ),
        slot_request(slot_name, SlotStepView::Done(outcome)) is None,
        slot_next(SlotStepView::Done(outcome), in_txn, reply) == (
            SlotStepView::Done(outcome),
            in_txn,
        ),
{
}

/// Only the answers to the query for the slot and to its making have a column that has to be
/// readable, each its own.
pub proof fn law_slot_reply_readable(reply: ReplySpec, outcome: Result<SlotInfo, ClientErrorView>)
    ensures
        slot_reply_readable(SlotStepView::LookUp, reply) <==> first_row_readable(
            reply,
            "confirmed_flush_lsn"@,
        ),
        slot_reply_readable(SlotStepView::Create, reply) <==> first_row_readable(
            reply,
            "consistent_point"@,
        ),
        slot_reply_readable(SlotStepView::RollBack, reply),
        slot_reply_readable(SlotStepView::Begin, reply),
        slot_reply_readable(SlotStepView::Done(outcome), reply),
{
}

/// The view of a step is the same step, with the same slot or error.
pub proof fn law_slot_step_view(step: SlotStep)
    ensures
        step is LookUp <==> step@ is LookUp,
        step is RollBack <==> step@ is RollBack,
        step is Begin <==> step@ is Begin,
        step is Create <==> step@ is Create,
        step matches SlotStep::Done(Ok(slot)) ==> step@ == SlotStepView::Done(Ok(slot)),
        step matches SlotStep::Done(Err(e)) ==> step@ == SlotStepView::Done(Err(e@)),
{
}

/// A query for the slot that fails, or whose answer is an error, ends the run at once with that
/// error, and the transaction is left as it was.
pub proof fn law_failed_look_up_ends_the_run(
    server: spec_fn(nat, Seq<char>) -> ReplySpec,
    slot_name: Seq<char>,
    in_txn: bool,
    e: ClientErrorView,
)
    requires
        slot_in_reply(server(0, slot_query(slot_name))) == Err::<Option<SlotInfo>, ClientErrorView>(
            e,
        ),
    ensures
        slot_run(server, slot_name, SlotStepView::LookUp, in_txn, 0, 4) == (
            SlotStepView::Done(Err(e)),
            in_txn,
            1nat,
        ),
{
    reveal_with_fuel(slot_run, 5);
}

/// Where there is no slot: a rollback that fails ends the run with its error after two requests,
/// and the transaction is still open. Otherwise a transaction is begun, and if that fails, its
/// error ends the run with no transaction open. Otherwise the slot is made, what comes of it
/// ends the run, and the transaction is open.
pub proof fn law_run_without_a_slot(
    server: spec_fn(nat, Seq<char>) -> ReplySpec,
    slot_name: Seq<char>,
    in_txn: bool,
    messages: Seq<QueryMessage>,
)
    requires
        server(0, slot_query(slot_name)) == Ok::<Seq<QueryMessage>, tokio_postgres::Error>(
            messages,
        ),
        !some_row(messages),
    ensures
        ({
            let end = slot_run(server, slot_name, SlotStepView::LookUp, in_txn, 0, 4);
            let n: nat = if in_txn {
                2
            } else {
                1
            };
            &&& in_txn && server(1, ROLLBACK@) is Err ==> end == (
                SlotStepView::Done(Err(request_failed(server(1, ROLLBACK@)->Err_0))),
                true,
                2nat,
            )
            &&& !(in_txn && server(1, ROLLBACK@) is Err) ==> {
                &&& server(n, BEGIN_READONLY@) is Err ==> end == (
                    SlotStepView::Done(Err(request_failed(server(n, BEGIN_READONLY@)->Err_0))),
                    false,
                    n + 1,
                )
                &&& server(n, BEGIN_READONLY@) is Ok ==> end == (
                    SlotStepView::Done(
                        created_slot_in_reply(
                            server(n + 1, slot_creation(quoted_identifier(slot_name))),
                        ),
                    ),
                    true,
                    n + 2,
                )
            }
        }),
{
    law_slot_is_missing_without_a_row(messages);
    reveal_with_fuel(slot_run, 5);
}

/// A slot whose position the server wrote into the first row of its answer is returned at that
/// position, after one request, and the transaction is left as it was.
pub proof fn law_written_slot_is_returned(
    server: spec_fn(nat, Seq<char>) -> ReplySpec,
    slot_name: Seq<char>,
    in_txn: bool,
    messages: Seq<QueryMessage>,
    i: int,
    value: u64,
)
    requires
        server(0, slot_query(slot_name)) == Ok::<Seq<QueryMessage>, tokio_postgres::Error>(
            messages,
        ),
        is_first_row(messages, i),
        value_named(messages[i]->Row_0, "confirmed_flush_lsn"@) == text_value(lsn_text(value)),
    ensures
        slot_run(server, slot_name, SlotStepView::LookUp, in_txn, 0, 4) == (
            SlotStepView::Done(Ok(SlotInfo { confirmed_flush_lsn: PgLsn { value } })),
            in_txn,
            1nat,
        ),
{
    law_written_slot_is_read(messages, i, value);
    reveal_with_fuel(slot_run, 5);
}

} // verus!
