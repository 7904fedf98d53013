//! What the server's replies mean.

use vstd::prelude::*;

use crate::client::ReplicationClient;
use crate::error::{
    request_failed, ClientErrorView, DriverErrorView, ReplicationClientError,
};
use crate::lsn::{law_lsn_text_reads_back, lsn_text, lsn_value, PgLsn};
use crate::message::{
    find_first_row, first_row, needed_value, reply_view, text_of, value_named, FieldValue,
    QueryMessage, QueryReply, QueryRow, ReplySpec,
};
use crate::table::{
    builtin_type, columns_view, type_or_unnamed, ColumnSchema, ColumnSchemaView, ColumnType,
    TableId, TableName, TableNameView,
};
use crate::text::{
    law_decimal_text_parses, number_text, parse_i32, parse_u32, same_text, signed_value,
    unsigned_value,
};

verus! {

/// What is known of a replication slot.
#[derive(Clone, Copy, Debug, PartialEq, Eq, Structural)]
pub struct SlotInfo {
    pub confirmed_flush_lsn: PgLsn,
}

/// What the rows among the messages mean, in their order, where `read` says what one row means:
/// the first error ends the reading.
pub open spec fn rows_in<T>(
    messages: Seq<QueryMessage>,
    read: spec_fn(QueryRow) -> Result<T, ClientErrorView>,
) -> Result<Seq<T>, ClientErrorView>
    decreases messages.len(),
{
    if messages.len() == 0 {
        Ok(seq![])
    } else {
        match rows_in(messages.drop_last(), read) {
            Err(e) => Err(e),
            Ok(values) => match messages.last() {
                QueryMessage::Other => Ok(values),
                QueryMessage::Row(row) => match read(row) {
                    Ok(value) => Ok(values.push(value)),
                    Err(e) => Err(e),
                },
            },
        }
    }
}

/// The rows among the messages, in their order.
pub open spec fn rows_of(messages: Seq<QueryMessage>) -> Seq<QueryRow>
    decreases messages.len(),
{
    if messages.len() == 0 {
        seq![]
    } else {
        match messages.last() {
            QueryMessage::Other => rows_of(messages.drop_last()),
            QueryMessage::Row(row) => rows_of(messages.drop_last()).push(row),
        }
    }
}

proof fn lemma_take_one_more(messages: Seq<QueryMessage>, i: int)
    requires
        0 <= i < messages.len(),
    ensures
        messages.take(i + 1).drop_last() == messages.take(i),
        messages.take(i + 1).last() == messages[i],
{
}

proof fn lemma_error_stays<T>(
    messages: Seq<QueryMessage>,
    n: int,
    read: spec_fn(QueryRow) -> Result<T, ClientErrorView>,
)
    requires
        0 <= n <= messages.len(),
        rows_in(messages.take(n), read) is Err,
    ensures
        rows_in(messages, read) == rows_in(messages.take(n), read),
    decreases messages.len() - n,
{
    if n == messages.len() {
        assert(messages.take(n) == messages);
    } else {
        lemma_take_one_more(messages, n);
        lemma_error_stays(messages, n + 1, read);
    }
}

/// Reading succeeds exactly where every row can be read, and then gives what each row means,
/// row by row; otherwise the error is that of the first row that cannot be read.
pub proof fn law_rows_in<T>(
    messages: Seq<QueryMessage>,
    read: spec_fn(QueryRow) -> Result<T, ClientErrorView>,
)
    ensures
        match rows_in(messages, read) {
            Ok(values) => {
                &&& values.len() == rows_of(messages).len()
                &&& forall|i: int|
                    0 <= i < values.len() ==> read(rows_of(messages)[i]) == Ok::<
                        T,
                        ClientErrorView,
                    >(#[trigger] values[i])
            },
            Err(e) => exists|i: int|
                {
                    &&& 0 <= i < rows_of(messages).len()
                    &&& read(#[trigger] rows_of(messages)[i]) == Err::<T, ClientErrorView>(e)
                    &&& forall|j: int|
                        0 <= j < i ==> read(#[trigger] rows_of(messages)[j]) is Ok
                },
        },
    decreases messages.len(),
{
    if messages.len() > 0 {
        let init = messages.drop_last();
        law_rows_in(init, read);
        let rows = rows_of(messages);
        let before = rows_of(init);
        assert(forall|i: int| 0 <= i < before.len() ==> rows[i] == before[i]);
        match rows_in(init, read) {
            Err(e) => {
                let i = choose|i: int|
                    {
                        &&& 0 <= i < before.len()
                        &&& read(#[trigger] before[i]) == Err::<T, ClientErrorView>(e)
                        &&& forall|j: int| 0 <= j < i ==> read(#[trigger] before[j]) is Ok
                    };
                assert(rows[i] == before[i]);
                assert forall|j: int| 0 <= j < i implies read(#[trigger] rows[j]) is Ok by {
                    assert(rows[j] == before[j]);
                }
            },
            Ok(values) => {
                match messages.last() {
                    QueryMessage::Other => {},
                    QueryMessage::Row(row) => {
                        assert(rows[before.len() as int] == row);
                        assert forall|j: int| 0 <= j < before.len() implies read(
                            #[trigger] rows[j],
                        ) is Ok by {
                            assert(rows[j] == before[j]);
                            assert(read(before[j]) == Ok::<T, ClientErrorView>(values[j]));
                        }
                        match read(row) {
                            Ok(value) => {
                                let all = values.push(value);
                                assert forall|i: int| 0 <= i < all.len() implies read(rows[i])
                                    == Ok::<T, ClientErrorView>(#[trigger] all[i]) by {
                                    if i < values.len() {
                                        assert(all[i] == values[i]);
                                    }
                                }
                            },
                            Err(_) => {},
                        }
                    },
                }
            },
        }
    }
}

/// The column that a row of the answer to the query for columns describes.
pub open spec fn column_in_row(row: QueryRow) -> Result<ColumnSchemaView, ClientErrorView> {
    match needed_value(row, "attname"@, "attname"@, "pg_attribute"@) {
        Err(e) => Err(e),
        Ok(name) => match oid_in_row(row, "atttypid"@, "pg_attribute"@) {
            Err(e) => Err(e),
            Ok(oid) => match needed_value(row, "atttypmod"@, "atttypmod"@, "pg_attribute"@) {
                Err(e) => Err(e),
                Ok(modifier) => match signed_value(modifier, 10, i32::MAX as nat) {
                    None => Err(ClientErrorView::TypeModifierColumnNotI32),
                    Some(modifier) => match (
                        needed_value(row, "attnotnull"@, "attnotnull"@, "pg_attribute"@),
                        needed_value(row, "primary"@, "indisprimary"@, "pg_index"@),
                    ) {
                        (Err(e), _) => Err(e),
                        (Ok(_), Err(e)) => Err(e),
                        (Ok(not_null), Ok(primary)) => Ok(
                            ColumnSchemaView {
                                name,
                                typ: type_or_unnamed(oid, builtin_type(oid)),
                                modifier: modifier as i32,
                                nullable: not_null == "f"@,
                                primary: primary == "t"@,
                            },
                        ),
                    },
                },
            },
        },
    }
}

/// The id in a column of a row.
pub open spec fn oid_in_row(row: QueryRow, name: Seq<char>, table: Seq<char>) -> Result<
    u32,
    ClientErrorView,
> {
    match needed_value(row, name, name, table) {
        Err(e) => Err(e),
        Ok(text) => match unsigned_value(text, 10, u32::MAX as nat) {
            None => Err(ClientErrorView::OidColumnNotU32),
            Some(oid) => Ok(oid as u32),
        },
    }
}

/// What the answer to the query for columns means.
pub open spec fn columns_in_reply(reply: ReplySpec) -> Result<
    Seq<ColumnSchemaView>,
    ClientErrorView,
> {
    match reply {
        Err(e) => Err(request_failed(e)),
        Ok(messages) => rows_in(messages, |row: QueryRow| column_in_row(row)),
    }
}

/// What the answer to the query for a table's id means: the first row counts. The table's
/// replica identity has to be the default one or the full one.
pub open spec fn table_id_in_reply(reply: ReplySpec) -> Result<Option<TableId>, ClientErrorView> {
    match reply {
        Err(e) => Err(request_failed(e)),
        Ok(messages) => match first_row(messages) {
            None => Ok(None),
            Some(row) => match needed_value(row, "relreplident"@, "relreplident"@, "pg_class"@) {
                Err(e) => Err(e),
                Ok(identity) => if identity != "d"@ && identity != "f"@ {
                    Err(ClientErrorView::ReplicaIdentityNotSupported(identity))
                } else {
                    match oid_in_row(row, "oid"@, "pg_class"@) {
                        Err(e) => Err(e),
                        Ok(oid) => Ok(Some(oid)),
                    }
                },
            },
        },
    }
}

/// The position in a column of a row.
pub open spec fn slot_in_row(row: QueryRow, name: Seq<char>, table: Seq<char>) -> Result<
    SlotInfo,
    ClientErrorView,
> {
    match needed_value(row, name, name, table) {
        Err(e) => Err(e),
        Ok(text) => match lsn_value(text) {
            None => Err(ClientErrorView::InvalidPgLsn),
            Some(value) => Ok(SlotInfo { confirmed_flush_lsn: PgLsn { value } }),
        },
    }
}

/// What the answer to the query for a slot means: the first row counts.
pub open spec fn slot_in_reply(reply: ReplySpec) -> Result<Option<SlotInfo>, ClientErrorView> {
    match reply {
        Err(e) => Err(request_failed(e)),
        Ok(messages) => match first_row(messages) {
            None => Ok(None),
            Some(row) => match slot_in_row(row, "confirmed_flush_lsn"@, "pg_replication_slots"@) {
                Err(e) => Err(e),
                Ok(slot) => Ok(Some(slot)),
            },
        },
    }
}

/// What the answer to the making of a slot means: the first row counts.
pub open spec fn created_slot_in_reply(reply: ReplySpec) -> Result<SlotInfo, ClientErrorView> {
    match reply {
        Err(e) => Err(request_failed(e)),
        Ok(messages) => match first_row(messages) {
            None => Err(ClientErrorView::FailedToCreateSlot),
            Some(row) => slot_in_row(row, "consistent_point"@, "create_replication_slot"@),
        },
    }
}

/// Whether the first row of a reply, if there is one, has a column of this name with a value
/// that can be read, or with none.
pub open spec fn first_row_readable(reply: ReplySpec, name: Seq<char>) -> bool {
    reply matches Ok(messages) ==> (first_row(messages) matches Some(row) ==> value_named(
        row,
        name,
    ) is Ok)
}

/// The table that a row of the answer to the query for a publication's tables names: its
/// schema in the first column, its name in the second.
pub open spec fn table_in_row(row: QueryRow) -> Result<TableNameView, ClientErrorView> {
    match text_of(row.fields@[0].value) {
        Err(e) => Err(ClientErrorView::TokioPostgresError(e)),
        Ok(None) => Err(ClientErrorView::MissingColumn("schemaname"@, "pg_publication_tables"@)),
        Ok(Some(schema)) => match text_of(row.fields@[1].value) {
            Err(e) => Err(ClientErrorView::TokioPostgresError(e)),
            Ok(None) => Err(
                ClientErrorView::MissingColumn("tablename"@, "pg_publication_tables"@),
            ),
            Ok(Some(name)) => Ok(TableNameView { schema, name }),
        },
    }
}

/// Whether the columns that are read of such a row are there and can be read: the second is
/// read only where the first has a value.
pub open spec fn table_row_readable(row: QueryRow) -> bool {
    &&& row.fields@.len() > 0
    &&& match text_of(row.fields@[0].value) {
        Err(_) => false,
        Ok(None) => true,
        Ok(Some(_)) => row.fields@.len() > 1 && text_of(row.fields@[1].value) is Ok,
    }
}

/// Whether every row that is read of such an answer is readable: the reading ends at the first
/// error.
pub open spec fn tables_readable(messages: Seq<QueryMessage>) -> bool {
    forall|i: int|
        0 <= i < messages.len() && rows_in(
            messages.take(i),
            |row: QueryRow| table_in_row(row),
        ) is Ok ==> (#[trigger] messages[i] matches QueryMessage::Row(row) ==> table_row_readable(
            row,
        ))
}

/// What the answer to the query for a publication's tables means.
pub open spec fn tables_in_reply(reply: ReplySpec) -> Result<Seq<TableNameView>, ClientErrorView> {
    match reply {
        Err(e) => Err(request_failed(e)),
        Ok(messages) => rows_in(messages, |row: QueryRow| table_in_row(row)),
    }
}

/// Table names as a sequence of views.
pub open spec fn names_view(names: Seq<TableName>) -> Seq<TableNameView> {
    names.map_values(|n: TableName| n@)
}

/// A column that holds a written position gives that position.
pub proof fn law_written_position_is_read(
    row: QueryRow,
    name: Seq<char>,
    table: Seq<char>,
    value: u64,
)
    requires
        value_named(row, name) == Ok::<Option<Seq<char>>, DriverErrorView>(Some(lsn_text(value))),
    ensures
        slot_in_row(row, name, table) == Ok::<SlotInfo, ClientErrorView>(
            SlotInfo { confirmed_flush_lsn: PgLsn { value } },
        ),
{
    law_lsn_text_reads_back(value);
}

/// A column that holds a written id gives that id.
pub proof fn law_written_id_is_read(
    row: QueryRow,
    name: Seq<char>,
    table: Seq<char>,
    value: u32,
)
    requires
        value_named(row, name) == Ok::<Option<Seq<char>>, DriverErrorView>(
            Some(number_text(value as nat, 10)),
        ),
    ensures
        oid_in_row(row, name, table) == Ok::<u32, ClientErrorView>(value),
{
    law_decimal_text_parses(value);
}

fn read_oid(row: &QueryRow, name: &str, table: &str) -> (r: Result<u32, ReplicationClientError>)
    ensures
        match oid_in_row(*row, name@, table@) {
            Ok(oid) => r matches Ok(x) && x == oid,
            Err(e) => r matches Err(x) && x@ == e,
        },
{
    match row.need(name, name, table) {
        Err(e) => Err(e),
        Ok(text) => match parse_u32(text.as_str()) {
            None => Err(ReplicationClientError::OidColumnNotU32),
            Some(oid) => Ok(oid),
        },
    }
}

fn read_column(row: &QueryRow) -> (r: Result<ColumnSchema, ReplicationClientError>)
    ensures
        match column_in_row(*row) {
            Ok(column) => r matches Ok(x) && x@ == column,
            Err(e) => r matches Err(x) && x@ == e,
        },
{
    let name = match row.need("attname", "attname", "pg_attribute") {
        Err(e) => {
            return Err(e);
        },
        Ok(text) => text.clone(),
    };
    let oid: u32 = match read_oid(row, "atttypid", "pg_attribute") {
        Err(e) => {
            return Err(e);
        },
        Ok(oid) => oid,
    };
    let typ = ColumnType::from_oid(oid);
    let modifier: i32 = match row.need("atttypmod", "atttypmod", "pg_attribute") {
        Err(e) => {
            return Err(e);
        },
        Ok(text) => match parse_i32(text.as_str()) {
            None => {
                return Err(ReplicationClientError::TypeModifierColumnNotI32);
            },
            Some(modifier) => modifier,
        },
    };
    let nullable: bool = match row.need("attnotnull", "attnotnull", "pg_attribute") {
        Err(e) => {
            return Err(e);
        },
        Ok(text) => same_text(text.as_str(), "f"),
    };
    let primary: bool = match row.need("primary", "indisprimary", "pg_index") {
        Err(e) => {
            return Err(e);
        },
        Ok(text) => same_text(text.as_str(), "t"),
    };
    Ok(ColumnSchema { name, typ, modifier, nullable, primary })
}

fn read_slot(row: &QueryRow, name: &str, table: &str) -> (r: Result<
    SlotInfo,
    ReplicationClientError,
>)
    ensures
        match slot_in_row(*row, name@, table@) {
            Ok(slot) => r matches Ok(x) && x == slot,
            Err(e) => r matches Err(x) && x@ == e,
        },
{
    match row.need(name, name, table) {
        Err(e) => Err(e),
        Ok(text) => match PgLsn::parse(text.as_str()) {
            None => Err(ReplicationClientError::InvalidPgLsn),
            Some(confirmed_flush_lsn) => Ok(SlotInfo { confirmed_flush_lsn }),
        },
    }
}

fn is_table_row_readable(row: &QueryRow) -> (r: bool)
    ensures
        r == table_row_readable(*row),
{
    if row.fields.len() == 0 {
        return false;
    }
    match &row.fields[0].value {
        FieldValue::Null => true,
        FieldValue::Unreadable(_) => false,
        FieldValue::Text(_) => row.fields.len() > 1 && match &row.fields[1].value {
            FieldValue::Unreadable(_) => false,
            _ => true,
        },
    }
}

fn read_table_name(row: &QueryRow) -> (r: Result<TableName, ReplicationClientError>)
    requires
        table_row_readable(*row),
    ensures
        match table_in_row(*row) {
            Ok(name) => r matches Ok(x) && x@ == name,
            Err(e) => r matches Err(x) && x@ == e,
        },
{
    match &row.fields[0].value {
        FieldValue::Text(schema) => match &row.fields[1].value {
            FieldValue::Text(name) => Ok(
                TableName { schema: schema.clone(), name: name.clone() },
            ),
            _ => Err(
                ReplicationClientError::MissingColumn(
                    "tablename".to_owned(),
                    "pg_publication_tables".to_owned(),
                ),
            ),
        },
        _ => Err(
            ReplicationClientError::MissingColumn(
                "schemaname".to_owned(),
                "pg_publication_tables".to_owned(),
            ),
        ),
    }
}

impl ReplicationClient {
    /// The columns of a table, from the answer to the query for them.
    pub fn get_column_schemas(reply: QueryReply) -> (r: Result<
        Vec<ColumnSchema>,
        ReplicationClientError,
    >)
        ensures
            match columns_in_reply(reply_view(reply)) {
                Ok(columns) => r matches Ok(x) && columns_view(x@) == columns,
                Err(e) => r matches Err(x) && x@ == e,
            },
    {
        let messages = match reply {
            Err(e) => {
                return Err(ReplicationClientError::from(e));
            },
            Ok(messages) => messages,
        };
        let ghost read = |row: QueryRow| column_in_row(row);
        let mut columns: Vec<ColumnSchema> = Vec::new();
        let mut i: usize = 0;
        assert(columns_view(columns@) == Seq::<ColumnSchemaView>::empty());
        while i < messages.len()
            invariant
                i <= messages@.len(),
                reply == QueryReply::Ok(messages),
                read == (|row: QueryRow| column_in_row(row)),
                rows_in(messages@.take(i as int), read) == Ok::<
                    Seq<ColumnSchemaView>,
                    ClientErrorView,
                >(columns_view(columns@)),
            decreases messages@.len() - i,
        {
            proof {
                lemma_take_one_more(messages@, i as int);
            }
            match &messages[i] {
                QueryMessage::Row(row) => match read_column(row) {
                    Ok(column) => {
                        let ghost before = columns@;
                        columns.push(column);
                        assert(columns_view(columns@) == columns_view(before).push(column@));
                    },
                    Err(e) => {
                        proof {
                            lemma_error_stays(messages@, i + 1, read);
                        }
                        return Err(e);
                    },
                },
                QueryMessage::Other => {},
            }
            i = i + 1;
        }
        assert(messages@.take(i as int) == messages@);
        Ok(columns)
    }

    /// The id of a table, from the answer to the query for it: `None` where there is no such
    /// table. A table whose replica identity is neither default nor full is an error.
    pub fn get_table_id(reply: QueryReply) -> (r: Result<Option<TableId>, ReplicationClientError>)
        ensures
            match table_id_in_reply(reply_view(reply)) {
                Ok(id) => r matches Ok(x) && x == id,
                Err(e) => r matches Err(x) && x@ == e,
            },
    {
        let messages = match reply {
            Err(e) => {
                return Err(ReplicationClientError::from(e));
            },
            Ok(messages) => messages,
        };
        let row = match find_first_row(&messages) {
            None => {
                return Ok(None);
            },
            Some(row) => row,
        };
        let identity = match row.need("relreplident", "relreplident", "pg_class") {
            Err(e) => {
                return Err(e);
            },
            Ok(identity) => identity,
        };
        if !(same_text(identity.as_str(), "d") || same_text(identity.as_str(), "f")) {
            return Err(ReplicationClientError::ReplicaIdentityNotSupported(identity.clone()));
        }
        match read_oid(row, "oid", "pg_class") {
            Err(e) => Err(e),
            Ok(oid) => Ok(Some(oid)),
        }
    }

    /// The slot, from the answer to the query for it: `None` where there is no such slot.
    pub fn get_slot(reply: QueryReply) -> (r: Result<Option<SlotInfo>, ReplicationClientError>)
        requires
            first_row_readable(reply_view(reply), "confirmed_flush_lsn"@),
        ensures
            match slot_in_reply(reply_view(reply)) {
                Ok(slot) => r matches Ok(x) && x == slot,
                Err(e) => r matches Err(x) && x@ == e,
            },
    {
        match reply {
            Err(e) => Err(ReplicationClientError::from(e)),
            Ok(messages) => match find_first_row(&messages) {
                None => Ok(None),
                Some(row) => match read_slot(row, "confirmed_flush_lsn", "pg_replication_slots") {
                    Err(e) => Err(e),
                    Ok(slot) => Ok(Some(slot)),
                },
            },
        }
    }

    /// The slot that was made, from the answer to its making.
    pub fn create_slot(reply: QueryReply) -> (r: Result<SlotInfo, ReplicationClientError>)
        requires
            first_row_readable(reply_view(reply), "consistent_point"@),
        ensures
            match created_slot_in_reply(reply_view(reply)) {
                Ok(slot) => r matches Ok(x) && x == slot,
                Err(e) => r matches Err(x) && x@ == e,
            },
    {
        match reply {
            Err(e) => Err(ReplicationClientError::from(e)),
            Ok(messages) => match find_first_row(&messages) {
                None => Err(ReplicationClientError::FailedToCreateSlot),
                Some(row) => read_slot(row, "consistent_point", "create_replication_slot"),
            },
        }
    }

    /// Whether the first row of a reply, if there is one, has a readable column of this name.
    pub fn first_row_is_readable(reply: &QueryReply, name: &str) -> (r: bool)
        ensures
            r == first_row_readable(reply_view(*reply), name@),
    {
        match reply {
            Err(_) => true,
            Ok(messages) => match find_first_row(messages) {
                None => true,
                Some(row) => row.try_get(name).is_ok(),
            },
        }
    }

    /// The tables of a publication, from the answer to the query for them.
    pub fn get_publication_table_names(reply: QueryReply) -> (r: Result<
        Vec<TableName>,
        ReplicationClientError,
    >)
        requires
            reply matches Ok(messages) ==> tables_readable(messages@),
        ensures
            match tables_in_reply(reply_view(reply)) {
                Ok(names) => r matches Ok(x) && names_view(x@) == names,
                Err(e) => r matches Err(x) && x@ == e,
            },
    {
        let messages = match reply {
            Err(e) => {
                return Err(ReplicationClientError::from(e));
            },
            Ok(messages) => messages,
        };
        let ghost read = |row: QueryRow| table_in_row(row);
        let mut names: Vec<TableName> = Vec::new();
        let mut i: usize = 0;
        assert(names_view(names@) == Seq::<TableNameView>::empty());
        while i < messages.len()
            invariant
                i <= messages@.len(),
                reply == QueryReply::Ok(messages),
                tables_readable(messages@),
                read == (|row: QueryRow| table_in_row(row)),
                rows_in(messages@.take(i as int), read) == Ok::<
                    Seq<TableNameView>,
                    ClientErrorView,
                >(names_view(names@)),
            decreases messages@.len() - i,
        {
            proof {
                lemma_take_one_more(messages@, i as int);
            }
            match &messages[i] {
                QueryMessage::Row(row) => match read_table_name(row) {
                    Ok(name) => {
                        let ghost before = names@;
                        names.push(name);
                        assert(names_view(names@) == names_view(before).push(name@));
                    },
                    Err(e) => {
                        proof {
                            lemma_error_stays(messages@, i + 1, read);
                        }
                        return Err(e);
                    },
                },
                QueryMessage::Other => {},
            }
            i = i + 1;
        }
        assert(messages@.take(i as int) == messages@);
        Ok(names)
    }

    /// Whether every row that is read of the answer to the query for a publication's tables has
    /// readable columns.
    pub fn table_rows_are_readable(reply: &QueryReply) -> (r: bool)
        ensures
            r == (reply matches Ok(messages) ==> tables_readable(messages@)),
    {
        let messages = match reply {
            Err(_) => {
                return true;
            },
            Ok(messages) => messages,
        };
        let ghost read = |row: QueryRow| table_in_row(row);
        let mut i: usize = 0;
        while i < messages.len()
            invariant
                i <= messages@.len(),
                reply == &QueryReply::Ok(*messages),
                read == (|row: QueryRow| table_in_row(row)),
                rows_in(messages@.take(i as int), read) is Ok,
                forall|j: int|
                    0 <= j < i ==> (#[trigger] messages@[j] matches QueryMessage::Row(row)
                        ==> table_row_readable(row)),
            decreases messages@.len() - i,
        {
            proof {
                lemma_take_one_more(messages@, i as int);
            }
            match &messages[i] {
                QueryMessage::Row(row) => {
                    if !is_table_row_readable(row) {
                        assert(messages@[i as int] is Row);
                        return false;
                    }
                    if read_table_name(row).is_err() {
                        assert forall|k: int|
                            0 <= k < messages@.len() && rows_in(
                                messages@.take(k),
                                read,
                            ) is Ok implies (#[trigger] messages@[k] matches QueryMessage::Row(
                            row,
                        ) ==> table_row_readable(row)) by {
                            if k > i {
                                assert(messages@.take(k).take(i + 1) == messages@.take(i + 1));
                                lemma_error_stays(messages@.take(k), i + 1, read);
                            }
                        }
                        return true;
                    }
                },
                QueryMessage::Other => {},
            }
            i = i + 1;
        }
        true
    }

    /// Whether a publication exists, from the answer to the query for it: it does where there
    /// is a row.
    pub fn publication_exists(reply: QueryReply) -> (r: Result<bool, ReplicationClientError>)
        ensures
            match reply {
                Ok(messages) => r matches Ok(found) && found == (exists|i: int|
                    0 <= i < messages@.len() && #[trigger] messages@[i] is Row),
                Err(e) => r matches Err(x) && x@ == request_failed(e),
            },
    {
        let messages = match reply {
            Err(e) => {
                return Err(ReplicationClientError::from(e));
            },
            Ok(messages) => messages,
        };
        let mut i: usize = 0;
        while i < messages.len()
            invariant
                i <= messages@.len(),
                reply == QueryReply::Ok(messages),
                forall|j: int| 0 <= j < i ==> !(#[trigger] messages@[j] is Row),
            decreases messages@.len() - i,
        {
            match &messages[i] {
                QueryMessage::Row(_) => {
                    assert(messages@[i as int] is Row);
                    return Ok(true);
                },
                QueryMessage::Other => {},
            }
            i = i + 1;
        }
        Ok(false)
    }
}

} // verus!
