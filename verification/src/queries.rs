//! The texts of the queries that the client sends.

use vstd::prelude::*;
use vstd::string::*;

use crate::client::ReplicationClient;
use crate::lsn::{lsn_text, PgLsn};
use crate::quote::{is_written_name, quote_identifier, quoted_identifier, quoted_literal};
use crate::table::{TableId, TableName, TableNameView};
use crate::text::{decimal_text, number_text};

verus! {

/// The query for the columns of a table, up to the id of the table.
pub const COLUMNS_HEAD: &'static str = "select a.attname,
                a.atttypid,
                a.atttypmod,
                a.attnotnull,
                coalesce(i.indisprimary, false) as primary
            from pg_attribute a
            left join pg_index i
                on a.attrelid = i.indrelid
                and a.attnum = any(i.indkey)
                and i.indisprimary = true
            where a.attnum > 0::int2
            and not a.attisdropped
            and a.attgenerated = ''
            and a.attrelid = ";

/// The query for the columns of a table, after the id of the table.
pub const COLUMNS_TAIL: &'static str = "
            order by a.attnum
            ";

/// The query for the id of a table, up to its schema.
pub const TABLE_HEAD: &'static str = "select c.oid,
                c.relreplident
            from pg_class c
            join pg_namespace n
                on (c.relnamespace = n.oid)
            where n.nspname = ";

/// The query for the id of a table, between its schema and its name.
pub const TABLE_MIDDLE: &'static str = "
                and c.relname = ";

/// The query for the id of a table, after its name.
pub const TABLE_TAIL: &'static str = "
            ";

/// The query for the columns of the table with the given id, in the order of the table.
pub open spec fn columns_query(table_id: TableId) -> Seq<char> {
    COLUMNS_HEAD@ + number_text(table_id as nat, 10) + COLUMNS_TAIL@
}

/// The query for the id and the replica identity of a table.
pub open spec fn table_query(table: TableNameView) -> Seq<char> {
    TABLE_HEAD@ + quoted_literal(table.schema) + TABLE_MIDDLE@ + quoted_literal(table.name)
        + TABLE_TAIL@
}

/// The query for the confirmed position of a slot.
pub open spec fn slot_query(slot_name: Seq<char>) -> Seq<char> {
    "select confirmed_flush_lsn from pg_replication_slots where slot_name = "@ + quoted_literal(
        slot_name,
    ) + ";"@
}

/// The query that makes a slot whose name is written as `slot`.
pub open spec fn slot_creation(slot: Seq<char>) -> Seq<char> {
    "CREATE_REPLICATION_SLOT "@ + slot + " LOGICAL pgoutput USE_SNAPSHOT"@
}

/// The query for the tables of a publication.
pub open spec fn publication_tables_query(publication: Seq<char>) -> Seq<char> {
    "select schemaname, tablename from pg_publication_tables where pubname = "@ + quoted_literal(
        publication,
    ) + ";"@
}

/// The query for whether a publication exists.
pub open spec fn publication_query(publication: Seq<char>) -> Seq<char> {
    "select 1 as exists from pg_publication where pubname = "@ + quoted_literal(publication)
        + ";"@
}

/// The query that copies out the table whose schema and name are written as `schema` and
/// `name`.
pub open spec fn table_copy(schema: Seq<char>, name: Seq<char>) -> Seq<char> {
    "COPY "@ + (schema + "."@ + name) + " TO STDOUT WITH (FORMAT text);"@
}

/// The options of a replication stream for a publication.
pub open spec fn stream_options(publication: Seq<char>) -> Seq<char> {
    "(\"proto_version\" '1', \"publication_names\" "@ + quoted_literal(publication) + ")"@
}

/// The query that starts the replication stream of a publication on the slot whose name is
/// written as `slot`, from a position on.
pub open spec fn stream_start(slot: Seq<char>, start_lsn: u64, publication: Seq<char>) -> Seq<
    char,
> {
    "START_REPLICATION SLOT "@ + slot + " LOGICAL "@ + lsn_text(start_lsn) + " "@
        + stream_options(publication)
}

/// `head`, then `middle`, then `tail`.
fn joined(head: &str, middle: &str, tail: &str) -> (r: String)
    ensures
        r@ == head@ + middle@ + tail@,
{
    let mut text = head.to_owned();
    text.append(middle);
    text.append(tail);
    text
}

impl ReplicationClient {
    /// The query for the columns of a table.
    pub fn get_column_schemas_query(table_id: TableId) -> (r: String)
        ensures
            r@ == columns_query(table_id),
    {
        joined(COLUMNS_HEAD, decimal_text(table_id).as_str(), COLUMNS_TAIL)
    }

    /// The query for the id of a table.
    pub fn get_table_id_query(table: &TableName) -> (r: String)
        ensures
            r@ == table_query(table@),
    {
        let quoted_schema = pg_escape::quote_literal(table.schema.as_str());
        let quoted_name = pg_escape::quote_literal(table.name.as_str());
        let mut query = joined(TABLE_HEAD, quoted_schema.as_str(), TABLE_MIDDLE);
        query.append(quoted_name.as_str());
        query.append(TABLE_TAIL);
        query
    }

    /// The query for the confirmed position of a slot.
    pub fn get_slot_query(slot_name: &str) -> (r: String)
        ensures
            r@ == slot_query(slot_name@),
    {
        joined(
            "select confirmed_flush_lsn from pg_replication_slots where slot_name = ",
            pg_escape::quote_literal(slot_name).as_str(),
            ";",
        )
    }

    /// The query that makes a logical replication slot.
    pub fn create_slot_query(slot_name: &str) -> (r: String)
        ensures
            r@ == slot_creation(quoted_identifier(slot_name@)),
            is_written_name(slot_name@, quoted_identifier(slot_name@)),
    {
        joined(
            "CREATE_REPLICATION_SLOT ",
            quote_identifier(slot_name).as_str(),
            " LOGICAL pgoutput USE_SNAPSHOT",
        )
    }

    /// The query for the tables of a publication.
    pub fn get_publication_table_names_query(publication: &str) -> (r: String)
        ensures
            r@ == publication_tables_query(publication@),
    {
        joined(
            "select schemaname, tablename from pg_publication_tables where pubname = ",
            pg_escape::quote_literal(publication).as_str(),
            ";",
        )
    }

    /// The query for whether a publication exists.
    pub fn publication_exists_query(publication: &str) -> (r: String)
        ensures
            r@ == publication_query(publication@),
    {
        joined(
            "select 1 as exists from pg_publication where pubname = ",
            pg_escape::quote_literal(publication).as_str(),
            ";",
        )
    }

    /// The query that copies out a table.
    pub fn get_table_copy_stream_query(table_name: &TableName) -> (r: String)
        ensures
            r@ == table_copy(
                quoted_identifier(table_name.schema@),
                quoted_identifier(table_name.name@),
            ),
            is_written_name(table_name.schema@, quoted_identifier(table_name.schema@)),
            is_written_name(table_name.name@, quoted_identifier(table_name.name@)),
    {
        joined(
            "COPY ",
            table_name.as_quoted_identifier().as_str(),
            " TO STDOUT WITH (FORMAT text);",
        )
    }

    /// The query that starts a logical replication stream.
    pub fn get_logical_replication_stream_query(
        publication: &str,
        slot_name: &str,
        start_lsn: PgLsn,
    ) -> (r: String)
        ensures
            r@ == stream_start(
                quoted_identifier(slot_name@),
                start_lsn.value,
                publication@,
            ),
            is_written_name(slot_name@, quoted_identifier(slot_name@)),
    {
        let options = joined(
            "(\"proto_version\" '1', \"publication_names\" ",
            pg_escape::quote_literal(publication).as_str(),
            ")",
        );
        let mut query = joined(
            "START_REPLICATION SLOT ",
            quote_identifier(slot_name).as_str(),
            " LOGICAL ",
        );
        query.append(start_lsn.to_text().as_str());
        query.append(" ");
        query.append(options.as_str());
        query
    }
}

} // verus!
