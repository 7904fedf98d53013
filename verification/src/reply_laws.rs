//! What holds of the replies as a whole: which messages count, and what is read of them.

use vstd::prelude::*;

use crate::error::{request_failed, ClientErrorView, DriverErrorView};
use crate::lsn::{law_lsn_text_reads_back, lsn_text, lsn_value, PgLsn};
use crate::message::{
    law_first_row, law_first_row_among_others, law_no_first_row, needed_value, value_named,
    FieldValue, QueryMessage, QueryRow, ReplySpec,
};
use crate::replies::{
    column_in_row, columns_in_reply, created_slot_in_reply, first_row_readable, law_rows_in,
    names_view, oid_in_row, rows_in, rows_of, slot_in_reply, slot_in_row, table_id_in_reply,
    table_in_row, table_row_readable, tables_in_reply, tables_readable, SlotInfo,
};
use crate::table::{
    builtin_type, type_or_unnamed, ColumnSchemaView, TableId, TableName, TableNameView,
};
use crate::text::{law_decimal_text_parses, number_text, signed_value, unsigned_value};

verus! {

/// What a column of a row holds: a text, no value, or an error.
pub type ColumnValue = Result<Option<Seq<char>>, DriverErrorView>;

/// A column that holds a text.
pub open spec fn text_value(text: Seq<char>) -> ColumnValue {
    Ok(Some(text))
}

/// A column without a value.
pub open spec fn no_value() -> ColumnValue {
    Ok(None)
}

/// Whether the message at position `i` is a row, and the first one.
pub open spec fn is_first_row(messages: Seq<QueryMessage>, i: int) -> bool {
    &&& 0 <= i < messages.len()
    &&& messages[i] is Row
    &&& forall|j: int| 0 <= j < i ==> !(#[trigger] messages[j] is Row)
}

/// Whether some message is a row.
pub open spec fn some_row(messages: Seq<QueryMessage>) -> bool {
    exists|i: int| 0 <= i < messages.len() && #[trigger] messages[i] is Row
}

/// The rows of two series of messages are those of the first, then those of the second; a row
/// alone is one row, and any other message is none.
pub proof fn law_rows_of(first: Seq<QueryMessage>, second: Seq<QueryMessage>, row: QueryRow)
    ensures
        rows_of(first + second) == rows_of(first) + rows_of(second),
        rows_of(seq![QueryMessage::Row(row)]) == seq![row],
        rows_of(seq![QueryMessage::Other]) == Seq::<QueryRow>::empty(),
    decreases second.len(),
{
    let one = seq![QueryMessage::Row(row)];
    let other = seq![QueryMessage::Other];
    assert(one.drop_last() == Seq::<QueryMessage>::empty());
    assert(other.drop_last() == Seq::<QueryMessage>::empty());
    assert(rows_of(one.drop_last()).push(row) == seq![row]);
    if second.len() == 0 {
        assert(first + second == first);
    } else {
        law_rows_of(first, second.drop_last(), row);
        assert((first + second).drop_last() == first + second.drop_last());
        assert((first + second).last() == second.last());
    }
}

/// There are no rows exactly where no message is a row.
pub proof fn law_no_rows(messages: Seq<QueryMessage>)
    ensures
        rows_of(messages).len() == 0 <==> !some_row(messages),
    decreases messages.len(),
{
    if messages.len() > 0 {
        let init = messages.drop_last();
        law_no_rows(init);
        if some_row(init) {
            let i = choose|i: int| 0 <= i < init.len() && #[trigger] init[i] is Row;
            assert(messages[i] is Row);
        }
        if messages.last() is Row {
            assert(messages[messages.len() - 1] is Row);
        } else if some_row(messages) {
            let i = choose|i: int| 0 <= i < messages.len() && #[trigger] messages[i] is Row;
            assert(init[i] is Row);
        }
    }
}

/// Two series of messages that can both be read mean, one after the other, what the first means
/// and then what the second means; an error in the first is the error of both.
pub proof fn law_rows_join<T>(
    first: Seq<QueryMessage>,
    second: Seq<QueryMessage>,
    read: spec_fn(QueryRow) -> Result<T, ClientErrorView>,
)
    ensures
        rows_in(first + second, read) == match (rows_in(first, read), rows_in(second, read)) {
            (Err(e), _) => Err(e),
            (Ok(_), Err(e)) => Err(e),
            (Ok(a), Ok(b)) => Ok(a + b),
        },
    decreases second.len(),
{
    if second.len() == 0 {
        assert(first + second == first);
        if let Ok(a) = rows_in(first, read) {
            assert(a + Seq::<T>::empty() == a);
        }
    } else {
        let init = second.drop_last();
        law_rows_join(first, init, read);
        assert((first + second).drop_last() == first + init);
        assert((first + second).last() == second.last());
        if let (Ok(a), Ok(b)) = (rows_in(first, read), rows_in(init, read)) {
            if let QueryMessage::Row(row) = second.last() {
                if let Ok(value) = read(row) {
                    assert((a + b).push(value) == a + b.push(value));
                }
            }
        }
    }
}

proof fn lemma_rows_among_others<T>(
    before: Seq<QueryMessage>,
    after: Seq<QueryMessage>,
    read: spec_fn(QueryRow) -> Result<T, ClientErrorView>,
)
    ensures
        rows_in(before + seq![QueryMessage::Other] + after, read) == rows_in(before + after, read),
{
    let other = seq![QueryMessage::Other];
    law_rows_join(before, after, read);
    law_rows_join(before + other, after, read);
    assert((before + other).drop_last() == before);
    assert((before + other).last() == QueryMessage::Other);
    assert(rows_in(before + other, read) == rows_in(before, read));
}

/// A message that is no row, wherever it stands, changes nothing about what a reply means.
pub proof fn law_other_messages_change_nothing(
    before: Seq<QueryMessage>,
    after: Seq<QueryMessage>,
    name: Seq<char>,
)
    ensures
        ({
            let with: ReplySpec = Ok(before + seq![QueryMessage::Other] + after);
            let without: ReplySpec = Ok(before + after);
            &&& columns_in_reply(with) == columns_in_reply(without)
            &&& tables_in_reply(with) == tables_in_reply(without)
            &&& table_id_in_reply(with) == table_id_in_reply(without)
            &&& slot_in_reply(with) == slot_in_reply(without)
            &&& created_slot_in_reply(with) == created_slot_in_reply(without)
            &&& first_row_readable(with, name) == first_row_readable(without, name)
        }),
{
    law_first_row_among_others(before, after);
    lemma_rows_among_others(before, after, |row: QueryRow| column_in_row(row));
    lemma_rows_among_others(before, after, |row: QueryRow| table_in_row(row));
}

/// A request that failed gives its error, whatever was asked, and nothing else.
pub proof fn law_failed_request_is_reported(e: tokio_postgres::Error, name: Seq<char>)
    ensures
        ({
            let reply: ReplySpec = Err(e);
            &&& columns_in_reply(reply) == Err::<Seq<ColumnSchemaView>, ClientErrorView>(
                request_failed(e),
            )
            &&& tables_in_reply(reply) == Err::<Seq<TableNameView>, ClientErrorView>(
                request_failed(e),
            )
            &&& table_id_in_reply(reply) == Err::<Option<TableId>, ClientErrorView>(
                request_failed(e),
            )
            &&& slot_in_reply(reply) == Err::<Option<SlotInfo>, ClientErrorView>(request_failed(e))
            &&& created_slot_in_reply(reply) == Err::<SlotInfo, ClientErrorView>(request_failed(e))
            &&& first_row_readable(reply, name)
        }),
{
}

/// Where a column holds a text with a number that fits, the id is that number; else the error
/// says what is wrong with the column.
pub proof fn law_oid_in_row(row: QueryRow, name: Seq<char>, table: Seq<char>, text: Seq<char>)
    ensures
        value_named(row, name) == text_value(text) ==> match unsigned_value(
            text,
            10,
            u32::MAX as nat,
        ) {
            Some(value) => oid_in_row(row, name, table) matches Ok(oid) && oid == value,
            None => oid_in_row(row, name, table) == Err::<u32, ClientErrorView>(
                ClientErrorView::OidColumnNotU32,
            ),
        },
        value_named(row, name) == no_value() ==> oid_in_row(row, name, table) == Err::<
            u32,
            ClientErrorView,
        >(ClientErrorView::MissingColumn(name, table)),
        value_named(row, name) matches Err(e) ==> oid_in_row(row, name, table) == Err::<
            u32,
            ClientErrorView,
        >(ClientErrorView::TokioPostgresError(e)),
{
    if let Some(value) = unsigned_value(text, 10, u32::MAX as nat) {
        assert(value <= u32::MAX);
    }
}

/// Where a column holds the text of a position, the slot is at that position; else the error
/// says what is wrong with the column.
pub proof fn law_slot_in_row(row: QueryRow, name: Seq<char>, table: Seq<char>, text: Seq<char>)
    ensures
        value_named(row, name) == text_value(text) ==> match lsn_value(text) {
            Some(value) => slot_in_row(row, name, table) matches Ok(slot)
                && slot.confirmed_flush_lsn.value == value,
            None => slot_in_row(row, name, table) == Err::<SlotInfo, ClientErrorView>(
                ClientErrorView::InvalidPgLsn,
            ),
        },
        value_named(row, name) == no_value() ==> slot_in_row(row, name, table) == Err::<
            SlotInfo,
            ClientErrorView,
        >(ClientErrorView::MissingColumn(name, table)),
        value_named(row, name) matches Err(e) ==> slot_in_row(row, name, table) == Err::<
            SlotInfo,
            ClientErrorView,
        >(ClientErrorView::TokioPostgresError(e)),
{
}

/// A slot is reported as missing exactly where no message of the reply is a row.
pub proof fn law_slot_is_missing_without_a_row(messages: Seq<QueryMessage>)
    ensures
        slot_in_reply(Ok(messages)) == Ok::<Option<SlotInfo>, ClientErrorView>(None)
            <==> !some_row(messages),
{
    law_no_first_row(messages);
}

/// The first row of the reply decides about the slot, whatever stands before and after it: the
/// text of a position in its column is the position of the slot, a text that is no position or
/// a column without a value is an error.
pub proof fn law_slot_in_reply(messages: Seq<QueryMessage>, i: int, text: Seq<char>)
    requires
        is_first_row(messages, i),
    ensures
        ({
            let value = value_named(messages[i]->Row_0, "confirmed_flush_lsn"@);
            let result = slot_in_reply(Ok(messages));
            &&& value == text_value(text) ==> match lsn_value(text) {
                Some(p) => result == Ok::<Option<SlotInfo>, ClientErrorView>(
                    Some(SlotInfo { confirmed_flush_lsn: PgLsn { value: p } }),
                ),
                None => result == Err::<Option<SlotInfo>, ClientErrorView>(
                    ClientErrorView::InvalidPgLsn,
                ),
            }
            &&& value == no_value() ==> result == Err::<Option<SlotInfo>, ClientErrorView>(
                ClientErrorView::MissingColumn(
                    "confirmed_flush_lsn"@,
                    "pg_replication_slots"@,
                ),
            )
            &&& value matches Err(e) ==> result == Err::<Option<SlotInfo>, ClientErrorView>(
                ClientErrorView::TokioPostgresError(e),
            )
        }),
{
    law_first_row(messages, i);
}

/// The position that the server wrote into the first row is the position that is read.
pub proof fn law_written_slot_is_read(messages: Seq<QueryMessage>, i: int, value: u64)
    requires
        is_first_row(messages, i),
    ensures
        value_named(messages[i]->Row_0, "confirmed_flush_lsn"@) == text_value(lsn_text(value))
            ==> slot_in_reply(Ok(messages)) == Ok::<Option<SlotInfo>, ClientErrorView>(
            Some(SlotInfo { confirmed_flush_lsn: PgLsn { value } }),
        ),
        value_named(messages[i]->Row_0, "consistent_point"@) == text_value(lsn_text(value))
            ==> created_slot_in_reply(Ok(messages)) == Ok::<SlotInfo, ClientErrorView>(
            SlotInfo { confirmed_flush_lsn: PgLsn { value } },
        ),
{
    law_lsn_text_reads_back(value);
    law_slot_in_reply(messages, i, lsn_text(value));
    law_created_slot_in_reply(messages, i, lsn_text(value));
}

/// The first row of the reply decides about the slot that was made, whatever stands before and
/// after it.
pub proof fn law_created_slot_in_reply(messages: Seq<QueryMessage>, i: int, text: Seq<char>)
    requires
        is_first_row(messages, i),
    ensures
        ({
            let value = value_named(messages[i]->Row_0, "consistent_point"@);
            let result = created_slot_in_reply(Ok(messages));
            &&& value == text_value(text) ==> match lsn_value(text) {
                Some(p) => result == Ok::<SlotInfo, ClientErrorView>(
                    SlotInfo { confirmed_flush_lsn: PgLsn { value: p } },
                ),
                None => result == Err::<SlotInfo, ClientErrorView>(ClientErrorView::InvalidPgLsn),
            }
            &&& value == no_value() ==> result == Err::<SlotInfo, ClientErrorView>(
                ClientErrorView::MissingColumn("consistent_point"@, "create_replication_slot"@),
            )
            &&& value matches Err(e) ==> result == Err::<SlotInfo, ClientErrorView>(
                ClientErrorView::TokioPostgresError(e),
            )
        }),
{
    law_first_row(messages, i);
}

/// A slot was not created exactly where no message of the reply is a row.
pub proof fn law_slot_is_not_created_without_a_row(messages: Seq<QueryMessage>)
    ensures
        created_slot_in_reply(Ok(messages)) == Err::<SlotInfo, ClientErrorView>(
            ClientErrorView::FailedToCreateSlot,
        ) <==> !some_row(messages),
{
    law_no_first_row(messages);
}

/// A table is reported as missing exactly where no message of the reply is a row.
pub proof fn law_table_is_missing_without_a_row(messages: Seq<QueryMessage>)
    ensures
        table_id_in_reply(Ok(messages)) == Ok::<Option<TableId>, ClientErrorView>(None)
            <==> !some_row(messages),
{
    law_no_first_row(messages);
}

/// The first row of the reply decides about the table, whatever stands before and after it. Its
/// replica identity has to be `d` or `f`; the number in its column `oid` is then the id, as it
/// is.
pub proof fn law_table_id_in_reply(
    messages: Seq<QueryMessage>,
    i: int,
    identity: Seq<char>,
    text: Seq<char>,
)
    requires
        is_first_row(messages, i),
    ensures
        ({
            let row = messages[i]->Row_0;
            let result = table_id_in_reply(Ok(messages));
            let replica = value_named(row, "relreplident"@);
            let oid = value_named(row, "oid"@);
            let supported = replica == text_value("d"@) || replica == text_value("f"@);
            &&& supported && oid == text_value(text) ==> match unsigned_value(
                text,
                10,
                u32::MAX as nat,
            ) {
                Some(value) => result matches Ok(Some(id)) && id == value,
                None => result == Err::<Option<TableId>, ClientErrorView>(
                    ClientErrorView::OidColumnNotU32,
                ),
            }
            &&& supported && oid == no_value() ==> result == Err::<
                Option<TableId>,
                ClientErrorView,
            >(ClientErrorView::MissingColumn("oid"@, "pg_class"@))
            &&& supported && oid is Err ==> result == Err::<Option<TableId>, ClientErrorView>(
                ClientErrorView::TokioPostgresError(oid->Err_0),
            )
            &&& replica == text_value(identity) && !supported ==> result == Err::<
                Option<TableId>,
                ClientErrorView,
            >(ClientErrorView::ReplicaIdentityNotSupported(identity))
            &&& replica == no_value() ==> result == Err::<Option<TableId>, ClientErrorView>(
                ClientErrorView::MissingColumn("relreplident"@, "pg_class"@),
            )
            &&& replica matches Err(e) ==> result == Err::<Option<TableId>, ClientErrorView>(
                ClientErrorView::TokioPostgresError(e),
            )
        }),
{
    law_first_row(messages, i);
    let row = messages[i]->Row_0;
    law_oid_in_row(row, "oid"@, "pg_class"@, text);
}

/// The id that the server wrote into the first row is the id that is read, for every id.
pub proof fn law_written_table_id_is_read(messages: Seq<QueryMessage>, i: int, value: u32)
    requires
        is_first_row(messages, i),
        value_named(messages[i]->Row_0, "relreplident"@) == text_value("d"@) || value_named(
            messages[i]->Row_0,
            "relreplident"@,
        ) == text_value("f"@),
        value_named(messages[i]->Row_0, "oid"@) == text_value(number_text(value as nat, 10)),
    ensures
        table_id_in_reply(Ok(messages)) == Ok::<Option<TableId>, ClientErrorView>(Some(value)),
{
    law_decimal_text_parses(value);
    law_table_id_in_reply(messages, i, "d"@, number_text(value as nat, 10));
}

/// An id is only ever given for a table whose replica identity is `d` or `f`, and it is the
/// number in the column `oid` of the first row.
pub proof fn law_table_id_comes_from_the_row(messages: Seq<QueryMessage>, id: TableId)
    requires
        table_id_in_reply(Ok(messages)) == Ok::<Option<TableId>, ClientErrorView>(Some(id)),
    ensures
        exists|i: int|
            {
                &&& #[trigger] is_first_row(messages, i)
                &&& value_named(messages[i]->Row_0, "relreplident"@) == text_value("d"@)
                    || value_named(messages[i]->Row_0, "relreplident"@) == text_value("f"@)
                &&& value_named(messages[i]->Row_0, "oid"@) matches Ok(Some(text))
                    && unsigned_value(text, 10, u32::MAX as nat) == Some(id as nat)
            },
{
    law_table_is_missing_without_a_row(messages);
    let i = lemma_first_row_at(messages);
    law_first_row(messages, i);
    let row = messages[i]->Row_0;
    let oid = needed_value(row, "oid"@, "oid"@, "pg_class"@)->Ok_0;
    if let Some(value) = unsigned_value(oid, 10, u32::MAX as nat) {
        assert(value <= u32::MAX);
    }
}

proof fn lemma_first_row_at(messages: Seq<QueryMessage>) -> (i: int)
    requires
        some_row(messages),
    ensures
        is_first_row(messages, i),
    decreases messages.len(),
{
    let init = messages.drop_last();
    if some_row(init) {
        let i = lemma_first_row_at(init);
        assert forall|j: int| 0 <= j < i implies !(#[trigger] messages[j] is Row) by {
            assert(!(init[j] is Row));
        }
        i
    } else {
        let i = choose|i: int| 0 <= i < messages.len() && #[trigger] messages[i] is Row;
        assert forall|j: int| 0 <= j < i implies !(#[trigger] messages[j] is Row) by {
            assert(!(init[j] is Row));
        }
        i
    }
}

/// Whether a row tells everything about a column.
pub open spec fn tells_a_column(row: QueryRow) -> bool {
    &&& value_named(row, "attname"@) matches Ok(Some(_))
    &&& value_named(row, "atttypid"@) matches Ok(Some(text)) && unsigned_value(
        text,
        10,
        u32::MAX as nat,
    ) is Some
    &&& value_named(row, "atttypmod"@) matches Ok(Some(text)) && signed_value(
        text,
        10,
        i32::MAX as nat,
    ) is Some
    &&& value_named(row, "attnotnull"@) matches Ok(Some(_))
    &&& value_named(row, "primary"@) matches Ok(Some(_))
}

/// Whether `column` is what a row tells: its name, its type and modifier by their numbers, and
/// two flags that do not depend on each other. It can be null exactly where `attnotnull` is
/// `f`, and belongs to the primary key exactly where `primary` is `t`.
pub open spec fn is_told_by(column: ColumnSchemaView, row: QueryRow) -> bool {
    &&& value_named(row, "attname"@) == text_value(column.name)
    &&& value_named(row, "atttypid"@) matches Ok(Some(text)) && unsigned_value(
        text,
        10,
        u32::MAX as nat,
    ) matches Some(value) && column.typ == type_or_unnamed(
        value as u32,
        builtin_type(value as u32),
    )
    &&& value_named(row, "atttypmod"@) matches Ok(Some(text)) && signed_value(
        text,
        10,
        i32::MAX as nat,
    ) == Some(column.modifier as int)
    &&& column.nullable <==> value_named(row, "attnotnull"@) == text_value("f"@)
    &&& column.primary <==> value_named(row, "primary"@) == text_value("t"@)
}

/// A row gives a column exactly where it tells everything about one, and then gives what it
/// tells.
pub proof fn law_column_in_row(row: QueryRow)
    ensures
        column_in_row(row) is Ok <==> tells_a_column(row),
        column_in_row(row) matches Ok(column) ==> is_told_by(column, row),
        column_in_row(row) matches Ok(column) ==> {
            &&& column.nullable <==> value_named(row, "attnotnull"@) == Ok::<
                Option<Seq<char>>,
                DriverErrorView,
            >(Some("f"@))
            &&& column.primary <==> value_named(row, "primary"@) == Ok::<
                Option<Seq<char>>,
                DriverErrorView,
            >(Some("t"@))
        },
{
    if let Ok(Some(text)) = value_named(row, "atttypid"@) {
        law_oid_in_row(row, "atttypid"@, "pg_attribute"@, text);
    }
    if let Ok(Some(text)) = value_named(row, "atttypmod"@) {
        if let Some(value) = signed_value(text, 10, i32::MAX as nat) {
            assert(i32::MIN <= value <= i32::MAX);
        }
    }
}

/// Nullability is read of the column `attnotnull` alone: two rows that agree in it, and both
/// give a column, give columns that agree in whether they can be null. In the same way the
/// other properties are read of their own columns alone.
pub proof fn law_columns_are_independent(a: QueryRow, b: QueryRow)
    requires
        column_in_row(a) is Ok,
        column_in_row(b) is Ok,
    ensures
        ({
            let x = column_in_row(a)->Ok_0;
            let y = column_in_row(b)->Ok_0;
            &&& value_named(a, "attname"@) == value_named(b, "attname"@) <==> x.name == y.name
            &&& value_named(a, "atttypid"@) == value_named(b, "atttypid"@) ==> x.typ == y.typ
            &&& value_named(a, "atttypmod"@) == value_named(b, "atttypmod"@) ==> x.modifier
                == y.modifier
            &&& value_named(a, "attnotnull"@) == value_named(b, "attnotnull"@) ==> x.nullable
                == y.nullable
            &&& value_named(a, "primary"@) == value_named(b, "primary"@) ==> x.primary == y.primary
        }),
{
    law_column_in_row(a);
    law_column_in_row(b);
}

/// The error for a column that is not there or cannot be read, that has no value, or whose text
/// is wrong, as `wrong_text` says.
pub open spec fn column_error(
    value: ColumnValue,
    missing: Seq<char>,
    table: Seq<char>,
    wrong_text: Option<ClientErrorView>,
) -> Option<ClientErrorView> {
    match value {
        Err(e) => Some(ClientErrorView::TokioPostgresError(e)),
        Ok(None) => Some(ClientErrorView::MissingColumn(missing, table)),
        Ok(Some(_)) => wrong_text,
    }
}

/// A row that does not tell everything about a column gives the error for the first of the five
/// columns that is wrong, in the order name, type, modifier, nullability, primary key.
pub proof fn law_column_errors(row: QueryRow)
    ensures
        ({
            let oid = value_named(row, "atttypid"@);
            let modifier = value_named(row, "atttypmod"@);
            let wrong_oid = if oid matches Ok(Some(text)) && unsigned_value(
                text,
                10,
                u32::MAX as nat,
            ) is None {
                Some(ClientErrorView::OidColumnNotU32)
            } else {
                None
            };
            let wrong_modifier = if modifier matches Ok(Some(text)) && signed_value(
                text,
                10,
                i32::MAX as nat,
            ) is None {
                Some(ClientErrorView::TypeModifierColumnNotI32)
            } else {
                None
            };
            let a = column_error(
                value_named(row, "attname"@),
                "attname"@,
                "pg_attribute"@,
                None,
            );
            let b = column_error(oid, "atttypid"@, "pg_attribute"@, wrong_oid);
            let c = column_error(modifier, "atttypmod"@, "pg_attribute"@, wrong_modifier);
            let d = column_error(
                value_named(row, "attnotnull"@),
                "attnotnull"@,
                "pg_attribute"@,
                None,
            );
            let e = column_error(
                value_named(row, "primary"@),
                "indisprimary"@,
                "pg_index"@,
                None,
            );
            let result = column_in_row(row);
            &&& a is Some ==> result == Err::<ColumnSchemaView, ClientErrorView>(a->0)
            &&& a is None && b is Some ==> result == Err::<ColumnSchemaView, ClientErrorView>(b->0)
            &&& a is None && b is None && c is Some ==> result == Err::<
                ColumnSchemaView,
                ClientErrorView,
            >(c->0)
            &&& a is None && b is None && c is None && d is Some ==> result == Err::<
                ColumnSchemaView,
                ClientErrorView,
            >(d->0)
            &&& a is None && b is None && c is None && d is None && e is Some ==> result == Err::<
                ColumnSchemaView,
                ClientErrorView,
            >(e->0)
        }),
{
}

/// A reply gives the columns of a table exactly where each of its rows tells everything about
/// one, and then gives a column for each row, in their order: what that row tells.
pub proof fn law_columns_in_reply(messages: Seq<QueryMessage>)
    ensures
        columns_in_reply(Ok(messages)) is Ok <==> forall|i: int|
            0 <= i < rows_of(messages).len() ==> tells_a_column(#[trigger] rows_of(messages)[i]),
        columns_in_reply(Ok(messages)) matches Ok(columns) ==> {
            &&& columns.len() == rows_of(messages).len()
            &&& forall|i: int|
                0 <= i < columns.len() ==> is_told_by(#[trigger] columns[i], rows_of(messages)[i])
        },
{
    let rows = rows_of(messages);
    let read = |row: QueryRow| column_in_row(row);
    law_rows_in(messages, read);
    match rows_in(messages, read) {
        Ok(columns) => {
            assert forall|i: int| 0 <= i < columns.len() implies is_told_by(
                #[trigger] columns[i],
                rows[i],
            ) by {
                assert(read(rows[i]) == Ok::<ColumnSchemaView, ClientErrorView>(columns[i]));
                law_column_in_row(rows[i]);
            }
            assert forall|i: int| 0 <= i < rows.len() implies tells_a_column(
                #[trigger] rows[i],
            ) by {
                assert(read(rows[i]) == Ok::<ColumnSchemaView, ClientErrorView>(columns[i]));
                law_column_in_row(rows[i]);
            }
        },
        Err(e) => {
            let i = choose|i: int|
                {
                    &&& 0 <= i < rows.len()
                    &&& read(#[trigger] rows[i]) == Err::<ColumnSchemaView, ClientErrorView>(e)
                    &&& forall|j: int| 0 <= j < i ==> read(#[trigger] rows[j]) is Ok
                };
            law_column_in_row(rows[i]);
            assert(!tells_a_column(rows[i]));
        },
    }
}

/// A reply that gives no columns gives the error of its first row that does not tell everything
/// about one.
pub proof fn law_columns_fail_at_first_wrong_row(messages: Seq<QueryMessage>, i: int)
    requires
        0 <= i < rows_of(messages).len(),
        !tells_a_column(rows_of(messages)[i]),
        forall|j: int| 0 <= j < i ==> tells_a_column(#[trigger] rows_of(messages)[j]),
    ensures
        columns_in_reply(Ok(messages)) is Err,
        columns_in_reply(Ok(messages))->Err_0 == column_in_row(rows_of(messages)[i])->Err_0,
{
    let rows = rows_of(messages);
    let read = |row: QueryRow| column_in_row(row);
    law_columns_in_reply(messages);
    law_rows_in(messages, read);
    let e = columns_in_reply(Ok(messages))->Err_0;
    let k = choose|k: int|
        {
            &&& 0 <= k < rows.len()
            &&& read(#[trigger] rows[k]) == Err::<ColumnSchemaView, ClientErrorView>(e)
            &&& forall|j: int| 0 <= j < k ==> read(#[trigger] rows[j]) is Ok
        };
    law_column_in_row(rows[k]);
    law_column_in_row(rows[i]);
    if i < k {
        assert(read(rows[i]) is Ok);
    }
    if k < i {
        assert(tells_a_column(rows[k]));
    }
}

/// Whether a row holds a schema and a name as texts in its first two columns.
pub open spec fn names_a_table(row: QueryRow, name: TableNameView) -> bool {
    &&& row.fields@.len() >= 2
    &&& row.fields@[0].value matches FieldValue::Text(text) && text@ == name.schema
    &&& row.fields@[1].value matches FieldValue::Text(text) && text@ == name.name
}

/// A row with texts in its first two columns names the table of that schema and name; without a
/// value in the first, or else in the second, it lacks that column.
pub proof fn law_table_in_row(row: QueryRow, name: TableNameView)
    ensures
        names_a_table(row, name) ==> table_row_readable(row) && table_in_row(row) == Ok::<
            TableNameView,
            ClientErrorView,
        >(name),
        table_row_readable(row) && table_in_row(row) == Ok::<TableNameView, ClientErrorView>(name)
            ==> names_a_table(row, name),
        row.fields@.len() > 0 && row.fields@[0].value is Null ==> table_row_readable(row)
            && table_in_row(row) == Err::<TableNameView, ClientErrorView>(
            ClientErrorView::MissingColumn("schemaname"@, "pg_publication_tables"@),
        ),
        row.fields@.len() > 1 && row.fields@[0].value is Text && row.fields@[1].value is Null
            ==> table_row_readable(row) && table_in_row(row) == Err::<
            TableNameView,
            ClientErrorView,
        >(ClientErrorView::MissingColumn("tablename"@, "pg_publication_tables"@)),
        row.fields@.len() == 0 ==> !table_row_readable(row),
        row.fields@.len() > 0 && row.fields@[0].value is Unreadable ==> !table_row_readable(row),
        row.fields@.len() == 1 && row.fields@[0].value is Text ==> !table_row_readable(row),
        row.fields@.len() > 1 && row.fields@[0].value is Text && row.fields@[1].value is Unreadable
            ==> !table_row_readable(row),
{
}

/// Where every row names a table, the reply can be read and gives these tables, one for each
/// row and in their order: none is lost and none is added, whatever other messages there are.
pub proof fn law_tables_in_reply(messages: Seq<QueryMessage>, names: Seq<TableNameView>)
    requires
        names.len() == rows_of(messages).len(),
        forall|i: int|
            0 <= i < names.len() ==> names_a_table(rows_of(messages)[i], #[trigger] names[i]),
    ensures
        tables_readable(messages),
        tables_in_reply(Ok(messages)) == Ok::<Seq<TableNameView>, ClientErrorView>(names),
{
    let rows = rows_of(messages);
    let read = |row: QueryRow| table_in_row(row);
    law_rows_in(messages, read);
    match rows_in(messages, read) {
        Ok(found) => {
            assert forall|i: int| 0 <= i < names.len() implies found[i] == names[i] by {
                assert(read(rows[i]) == Ok::<TableNameView, ClientErrorView>(found[i]));
                assert(names_a_table(rows[i], names[i]));
                law_table_in_row(rows[i], names[i]);
            }
            assert(found == names);
        },
        Err(e) => {
            let i = choose|i: int|
                {
                    &&& 0 <= i < rows.len()
                    &&& read(#[trigger] rows[i]) == Err::<TableNameView, ClientErrorView>(e)
                    &&& forall|j: int| 0 <= j < i ==> read(#[trigger] rows[j]) is Ok
                };
            assert(names_a_table(rows[i], names[i]));
            law_table_in_row(rows[i], names[i]);
            assert(false);
        },
    }
    assert forall|i: int|
        0 <= i < messages.len() && rows_in(
            messages.take(i),
            read,
        ) is Ok implies (#[trigger] messages[i] matches QueryMessage::Row(row)
        ==> table_row_readable(row)) by {
        if let QueryMessage::Row(row) = messages[i] {
            let k = lemma_row_has_a_place(messages, i);
            assert(names_a_table(rows[k], names[k]));
            law_table_in_row(rows[k], names[k]);
        }
    }
}

proof fn lemma_row_has_a_place(messages: Seq<QueryMessage>, i: int) -> (k: int)
    requires
        0 <= i < messages.len(),
        messages[i] is Row,
    ensures
        0 <= k < rows_of(messages).len(),
        rows_of(messages)[k] == messages[i]->Row_0,
    decreases messages.len(),
{
    let init = messages.drop_last();
    if i == messages.len() - 1 {
        rows_of(init).len() as int
    } else {
        assert(init[i] == messages[i]);
        lemma_row_has_a_place(init, i)
    }
}

/// Where a reply that can be read gives tables, they are those that its rows name, one for each
/// row and in their order.
pub proof fn law_tables_come_from_the_rows(
    messages: Seq<QueryMessage>,
    names: Seq<TableNameView>,
)
    requires
        tables_readable(messages),
        tables_in_reply(Ok(messages)) == Ok::<Seq<TableNameView>, ClientErrorView>(names),
    ensures
        names.len() == rows_of(messages).len(),
        forall|i: int|
            0 <= i < names.len() ==> names_a_table(rows_of(messages)[i], #[trigger] names[i]),
{
    let rows = rows_of(messages);
    let read = |row: QueryRow| table_in_row(row);
    law_rows_in(messages, read);
    assert forall|i: int| 0 <= i < names.len() implies names_a_table(
        rows[i],
        #[trigger] names[i],
    ) by {
        assert(read(rows[i]) == Ok::<TableNameView, ClientErrorView>(names[i]));
        lemma_read_rows_are_readable(messages, i);
        law_table_in_row(rows[i], names[i]);
    }
}

proof fn lemma_read_rows_are_readable(messages: Seq<QueryMessage>, k: int)
    requires
        tables_readable(messages),
        rows_in(messages, |row: QueryRow| table_in_row(row)) is Ok,
        0 <= k < rows_of(messages).len(),
    ensures
        table_row_readable(rows_of(messages)[k]),
    decreases messages.len(),
{
    let read = |row: QueryRow| table_in_row(row);
    let init = messages.drop_last();
    let last = messages.len() - 1;
    assert(messages.take(last) == init);
    assert(messages[last] == messages.last());
    if messages.last() is Row && k == rows_of(init).len() {
        assert(rows_in(messages.take(last), read) is Ok);
        assert(rows_of(messages)[k] == messages.last()->Row_0);
    } else {
        assert forall|i: int| 0 <= i < init.len() && rows_in(init.take(i), read) is Ok implies (
        #[trigger] init[i] matches QueryMessage::Row(row) ==> table_row_readable(row)) by {
            assert(init.take(i) == messages.take(i));
            assert(init[i] == messages[i]);
        }
        assert(rows_in(init, read) is Ok);
        lemma_read_rows_are_readable(init, k);
        assert(rows_of(messages)[k] == rows_of(init)[k]);
    }
}

/// A reply whose first row that names no table lacks a value gives the error for that row: the
/// rows after it are not read.
pub proof fn law_tables_fail_at_first_wrong_row(messages: Seq<QueryMessage>, i: int)
    requires
        0 <= i < rows_of(messages).len(),
        forall|j: int| 0 <= j < i ==> names_some_table(#[trigger] rows_of(messages)[j]),
        rows_of(messages)[i].fields@.len() >= 2,
    ensures
        rows_of(messages)[i].fields@[0].value is Null ==> tables_in_reply(Ok(messages)) == Err::<
            Seq<TableNameView>,
            ClientErrorView,
        >(ClientErrorView::MissingColumn("schemaname"@, "pg_publication_tables"@)),
        rows_of(messages)[i].fields@[0].value is Text && rows_of(messages)[i].fields@[1].value
            is Null ==> tables_in_reply(Ok(messages)) == Err::<
            Seq<TableNameView>,
            ClientErrorView,
        >(ClientErrorView::MissingColumn("tablename"@, "pg_publication_tables"@)),
{
    let rows = rows_of(messages);
    let read = |row: QueryRow| table_in_row(row);
    law_rows_in(messages, read);
    if read(rows[i]) is Err {
        match rows_in(messages, read) {
            Ok(found) => {
                assert(read(rows[i]) == Ok::<TableNameView, ClientErrorView>(found[i]));
            },
            Err(e) => {
                let k = choose|k: int|
                    {
                        &&& 0 <= k < rows.len()
                        &&& read(#[trigger] rows[k]) == Err::<TableNameView, ClientErrorView>(e)
                        &&& forall|j: int| 0 <= j < k ==> read(#[trigger] rows[j]) is Ok
                    };
                if k < i {
                    assert(names_some_table(rows[k]));
                }
                if i < k {
                    assert(read(rows[i]) is Ok);
                }
                assert(k == i);
            },
        }
    }
}

/// Whether a row has texts in its first two columns.
pub open spec fn names_some_table(row: QueryRow) -> bool {
    row.fields@.len() >= 2 && row.fields@[0].value is Text && row.fields@[1].value is Text
}

/// Whether the first `n` rows all have texts in their first two columns.
pub open spec fn all_name_tables(rows: Seq<QueryRow>, n: int) -> bool {
    forall|j: int| 0 <= j < n ==> names_some_table(#[trigger] rows[j])
}

/// Whether every row can be read that is read at all: each one up to the first that names no
/// table.
pub open spec fn rows_readable(rows: Seq<QueryRow>) -> bool {
    forall|k: int|
        0 <= k < rows.len() && all_name_tables(rows, k) ==> table_row_readable(#[trigger] rows[k])
}

proof fn lemma_rows_readable_step(rows: Seq<QueryRow>, row: QueryRow)
    ensures
        rows_readable(rows.push(row)) <==> rows_readable(rows) && (all_name_tables(
            rows,
            rows.len() as int,
        ) ==> table_row_readable(row)),
{
    let more = rows.push(row);
    assert forall|k: int| 0 <= k <= rows.len() implies all_name_tables(more, k)
        == #[trigger] all_name_tables(rows, k) by {
        assert(forall|j: int| 0 <= j < k ==> more[j] == rows[j]);
        if all_name_tables(rows, k) {
            assert forall|j: int| 0 <= j < k implies names_some_table(#[trigger] more[j]) by {
                assert(names_some_table(rows[j]));
            }
        } else {
            let j = choose|j: int| 0 <= j < k && !names_some_table(#[trigger] rows[j]);
            assert(!names_some_table(more[j]));
        }
    }
    assert(more[rows.len() as int] == row);
    if rows_readable(more) {
        assert forall|k: int| 0 <= k < rows.len() && all_name_tables(
            rows,
            k,
        ) implies table_row_readable(#[trigger] rows[k]) by {
            assert(all_name_tables(more, k));
            assert(table_row_readable(more[k]));
        }
        assert(all_name_tables(rows, rows.len() as int) == all_name_tables(
            more,
            rows.len() as int,
        ));
    } else {
        let k = choose|k: int|
            0 <= k < more.len() && all_name_tables(more, k) && !table_row_readable(
                #[trigger] more[k],
            );
        assert(all_name_tables(rows, k));
        if k < rows.len() {
            assert(!table_row_readable(rows[k]));
        }
    }
}

proof fn lemma_tables_readable_step(messages: Seq<QueryMessage>)
    requires
        messages.len() > 0,
    ensures
        tables_readable(messages) <==> tables_readable(messages.drop_last()) && (rows_in(
            messages.drop_last(),
            |row: QueryRow| table_in_row(row),
        ) is Ok ==> (messages.last() matches QueryMessage::Row(row) ==> table_row_readable(row))),
{
    let read = |row: QueryRow| table_in_row(row);
    let init = messages.drop_last();
    let last = messages.len() - 1;
    assert(messages.take(last) == init);
    assert(messages[last] == messages.last());
    assert forall|i: int| 0 <= i < last implies #[trigger] messages[i] == init[i] && messages.take(
        i,
    ) == init.take(i) by {
        assert(messages.take(i) == init.take(i));
    }
    if tables_readable(messages) {
        assert forall|i: int| 0 <= i < init.len() && rows_in(init.take(i), read) is Ok implies (
        #[trigger] init[i] matches QueryMessage::Row(row) ==> table_row_readable(row)) by {
            assert(messages[i] == init[i]);
        }
    }
}

proof fn lemma_read_rows_name_tables(messages: Seq<QueryMessage>)
    requires
        tables_readable(messages),
    ensures
        rows_in(messages, |row: QueryRow| table_in_row(row)) is Ok <==> all_name_tables(
            rows_of(messages),
            rows_of(messages).len() as int,
        ),
{
    let read = |row: QueryRow| table_in_row(row);
    let rows = rows_of(messages);
    law_rows_in(messages, read);
    match rows_in(messages, read) {
        Ok(found) => {
            assert forall|j: int| 0 <= j < rows.len() implies names_some_table(
                #[trigger] rows[j],
            ) by {
                lemma_read_rows_are_readable(messages, j);
                assert(read(rows[j]) == Ok::<TableNameView, ClientErrorView>(found[j]));
            }
        },
        Err(e) => {
            let k = choose|k: int|
                {
                    &&& 0 <= k < rows.len()
                    &&& read(#[trigger] rows[k]) == Err::<TableNameView, ClientErrorView>(e)
                    &&& forall|j: int| 0 <= j < k ==> read(#[trigger] rows[j]) is Ok
                };
            assert(!names_some_table(rows[k]));
        },
    }
}

/// A reply can be read exactly where each of its rows can be that is read at all: every row up
/// to the first that names no table.
pub proof fn law_tables_readable(messages: Seq<QueryMessage>)
    ensures
        tables_readable(messages) <==> rows_readable(rows_of(messages)),
    decreases messages.len(),
{
    if messages.len() > 0 {
        let init = messages.drop_last();
        law_tables_readable(init);
        lemma_tables_readable_step(messages);
        if tables_readable(init) {
            lemma_read_rows_name_tables(init);
        }
        if let QueryMessage::Row(row) = messages.last() {
            lemma_rows_readable_step(rows_of(init), row);
        }
    }
}

/// A reply can be read in a column where it has no row; where it has one, exactly where the
/// first row has the column, with a text or without a value.
pub proof fn law_first_row_readable(messages: Seq<QueryMessage>, i: int, name: Seq<char>)
    ensures
        !some_row(messages) ==> first_row_readable(Ok(messages), name),
        is_first_row(messages, i) ==> (first_row_readable(Ok(messages), name) <==> value_named(
            messages[i]->Row_0,
            name,
        ) is Ok),
{
    law_no_first_row(messages);
    if is_first_row(messages, i) {
        law_first_row(messages, i);
    }
}

/// The views of table names hold the schema and the name of each.
pub proof fn law_names_view(names: Seq<TableName>, i: int)
    requires
        0 <= i < names.len(),
    ensures
        names_view(names).len() == names.len(),
        names_view(names)[i].schema == names[i].schema@,
        names_view(names)[i].name == names[i].name@,
{
}

} // verus!
