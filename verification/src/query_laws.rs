//! What a server reads in the queries: each names what it was made for, whatever that holds.

use vstd::prelude::*;

use crate::lsn::{law_lsn_text_reads_back, lsn_text, lsn_value};
use crate::queries::{
    columns_query, publication_query, publication_tables_query, slot_creation, slot_query,
    stream_options, stream_start, table_copy, table_query, COLUMNS_HEAD, COLUMNS_TAIL, TABLE_HEAD,
    TABLE_MIDDLE, TABLE_TAIL,
};
use crate::quote::{
    is_written_name, law_literal_reads_back, law_name_reads_back, quoted_literal, read_literal,
    read_name,
};
use crate::table::{TableId, TableNameView};
use crate::text::{
    digit_value, law_decimal_text_parses, law_number_text_reads_back, number_text, unsigned_value,
};

verus! {

/// What follows `head` in a text that starts with it.
pub open spec fn after(text: Seq<char>, head: Seq<char>) -> Option<Seq<char>> {
    if text.len() >= head.len() && text.take(head.len() as int) == head {
        Some(text.skip(head.len() as int))
    } else {
        None
    }
}

/// The string constant that stands between `head` and `tail` in a query.
pub open spec fn literal_between(query: Seq<char>, head: Seq<char>, tail: Seq<char>) -> Option<
    Seq<char>,
> {
    match after(query, head) {
        Some(text) => match read_literal(text) {
            Some((value, rest)) if rest == tail => Some(value),
            _ => None,
        },
        None => None,
    }
}

/// The name that stands between `head` and `tail` in a query.
pub open spec fn name_between(query: Seq<char>, head: Seq<char>, tail: Seq<char>) -> Option<
    Seq<char>,
> {
    match after(query, head) {
        Some(text) => match read_name(text) {
            Some((name, rest)) if rest == tail => Some(name),
            _ => None,
        },
        None => None,
    }
}

/// The table that a query for a table's id names.
pub open spec fn table_in_query(query: Seq<char>) -> Option<TableNameView> {
    match after(query, TABLE_HEAD@) {
        Some(text) => match read_literal(text) {
            Some((schema, rest)) => match literal_between(rest, TABLE_MIDDLE@, TABLE_TAIL@) {
                Some(name) => Some(TableNameView { schema, name }),
                None => None,
            },
            None => None,
        },
        None => None,
    }
}

/// The table that a copy query names.
pub open spec fn table_in_copy(query: Seq<char>) -> Option<TableNameView> {
    match after(query, "COPY "@) {
        Some(text) => match read_name(text) {
            Some((schema, rest)) => match name_between(
                rest,
                "."@,
                " TO STDOUT WITH (FORMAT text);"@,
            ) {
                Some(name) => Some(TableNameView { schema, name }),
                None => None,
            },
            None => None,
        },
        None => None,
    }
}

/// The slot, the position and the publication that the start of a stream names.
pub open spec fn stream_in_start(query: Seq<char>) -> Option<(Seq<char>, u64, Seq<char>)> {
    match after(query, "START_REPLICATION SLOT "@) {
        Some(text) => match read_name(text) {
            Some((slot, rest)) => match after(rest, " LOGICAL "@) {
                Some(position_and_options) => match position_and_options.index_of_first(' ') {
                    Some(at) => match (
                        lsn_value(position_and_options.take(at)),
                        literal_between(
                            position_and_options.skip(at + 1),
                            "(\"proto_version\" '1', \"publication_names\" "@,
                            ")"@,
                        ),
                    ) {
                        (Some(start_lsn), Some(publication)) => Some(
                            (slot, start_lsn, publication),
                        ),
                        _ => None,
                    },
                    None => None,
                },
                None => None,
            },
            None => None,
        },
        None => None,
    }
}

proof fn lemma_after(head: Seq<char>, rest: Seq<char>)
    ensures
        after(head + rest, head) == Some(rest),
{
    assert((head + rest).take(head.len() as int) == head);
    assert((head + rest).skip(head.len() as int) == rest);
}

proof fn lemma_literal_between(head: Seq<char>, value: Seq<char>, tail: Seq<char>)
    requires
        tail.len() > 0,
        tail[0] != '\'',
    ensures
        literal_between(head + quoted_literal(value) + tail, head, tail) == Some(value),
{
    law_literal_reads_back(value, tail);
    lemma_after(head, quoted_literal(value) + tail);
    assert(head + quoted_literal(value) + tail == head + (quoted_literal(value) + tail));
}

/// The query for a table's id names that table, and no other text of it depends on the name.
pub proof fn law_table_query_names_the_table(table: TableNameView)
    ensures
        table_in_query(table_query(table)) == Some(table),
{
    reveal_strlit("
                and c.relname = ");
    reveal_strlit("
            ");
    let rest = TABLE_MIDDLE@ + quoted_literal(table.name) + TABLE_TAIL@;
    lemma_literal_between(TABLE_MIDDLE@, table.name, TABLE_TAIL@);
    law_literal_reads_back(table.schema, rest);
    lemma_after(TABLE_HEAD@, quoted_literal(table.schema) + rest);
    assert(table_query(table) == TABLE_HEAD@ + (quoted_literal(table.schema) + rest));
}

/// Two tables have the same query for their ids only if they are the same table.
pub proof fn law_table_queries_differ(a: TableNameView, b: TableNameView)
    ensures
        table_query(a) == table_query(b) ==> a == b,
{
    law_table_query_names_the_table(a);
    law_table_query_names_the_table(b);
}

/// Two tables have the same query for their columns only if they have the same id.
pub proof fn law_columns_queries_differ(a: TableId, b: TableId)
    ensures
        columns_query(a) == columns_query(b) ==> a == b,
{
    law_number_text_reads_back(a as nat, 10);
    law_number_text_reads_back(b as nat, 10);
    if columns_query(a) == columns_query(b) {
        let x = number_text(a as nat, 10);
        let y = number_text(b as nat, 10);
        let from = COLUMNS_HEAD@.len() as int;
        assert(x == columns_query(a).subrange(from, from + x.len()));
        assert(x.len() == y.len()) by {
            assert(columns_query(a).len() == from + x.len() + COLUMNS_TAIL@.len());
            assert(columns_query(b).len() == from + y.len() + COLUMNS_TAIL@.len());
        }
        assert(y == columns_query(b).subrange(from, from + y.len()));
    }
}

/// The query for a slot's position names that slot.
pub proof fn law_slot_query_names_the_slot(slot_name: Seq<char>)
    ensures
        literal_between(
            slot_query(slot_name),
            "select confirmed_flush_lsn from pg_replication_slots where slot_name = "@,
            ";"@,
        ) == Some(slot_name),
{
    reveal_strlit(";");
    lemma_literal_between(
        "select confirmed_flush_lsn from pg_replication_slots where slot_name = "@,
        slot_name,
        ";"@,
    );
}

/// The queries for a publication and for its tables name that publication.
pub proof fn law_publication_queries_name_the_publication(publication: Seq<char>)
    ensures
        literal_between(
            publication_query(publication),
            "select 1 as exists from pg_publication where pubname = "@,
            ";"@,
        ) == Some(publication),
        literal_between(
            publication_tables_query(publication),
            "select schemaname, tablename from pg_publication_tables where pubname = "@,
            ";"@,
        ) == Some(publication),
{
    reveal_strlit(";");
    lemma_literal_between(
        "select 1 as exists from pg_publication where pubname = "@,
        publication,
        ";"@,
    );
    lemma_literal_between(
        "select schemaname, tablename from pg_publication_tables where pubname = "@,
        publication,
        ";"@,
    );
}

/// The query that makes a slot names that slot, where its name is written as a name.
pub proof fn law_slot_creation_names_the_slot(slot_name: Seq<char>, written: Seq<char>)
    requires
        is_written_name(slot_name, written),
    ensures
        name_between(
            slot_creation(written),
            "CREATE_REPLICATION_SLOT "@,
            " LOGICAL pgoutput USE_SNAPSHOT"@,
        ) == Some(slot_name),
{
    reveal_strlit(" LOGICAL pgoutput USE_SNAPSHOT");
    let tail = " LOGICAL pgoutput USE_SNAPSHOT"@;
    law_name_reads_back(slot_name, written, tail);
    lemma_after("CREATE_REPLICATION_SLOT "@, written + tail);
    assert(slot_creation(written) == "CREATE_REPLICATION_SLOT "@ + (written + tail));
}

/// The query that copies out a table names that table, where its schema and its name are
/// written as names.
pub proof fn law_table_copy_names_the_table(
    table: TableNameView,
    schema: Seq<char>,
    name: Seq<char>,
)
    requires
        is_written_name(table.schema, schema),
        is_written_name(table.name, name),
    ensures
        table_in_copy(table_copy(schema, name)) == Some(table),
{
    reveal_strlit(".");
    reveal_strlit(" TO STDOUT WITH (FORMAT text);");
    let tail = " TO STDOUT WITH (FORMAT text);"@;
    let rest = "."@ + (name + tail);
    law_name_reads_back(table.name, name, tail);
    lemma_after("."@, name + tail);
    law_name_reads_back(table.schema, schema, rest);
    lemma_after("COPY "@, schema + rest);
    assert(table_copy(schema, name) == "COPY "@ + (schema + rest));
}

/// The query that starts a stream names the slot, the position and the publication that it
/// was made for, where the name of the slot is written as a name.
pub proof fn law_stream_start_names_its_parts(
    slot_name: Seq<char>,
    written: Seq<char>,
    start_lsn: u64,
    publication: Seq<char>,
)
    requires
        is_written_name(slot_name, written),
    ensures
        stream_in_start(stream_start(written, start_lsn, publication)) == Some(
            (slot_name, start_lsn, publication),
        ),
{
    reveal_strlit(" LOGICAL ");
    reveal_strlit(" ");
    reveal_strlit(")");
    let position = lsn_text(start_lsn);
    let options = stream_options(publication);
    let text = position + " "@ + options;
    let rest = " LOGICAL "@ + text;
    law_lsn_text_reads_back(start_lsn);
    lemma_lsn_text_has_no_space(start_lsn);
    lemma_literal_between(
        "(\"proto_version\" '1', \"publication_names\" "@,
        publication,
        ")"@,
    );
    assert(text.index_of_first(' ') == Some(position.len() as int)) by {
        text.index_of_first_ensures(' ');
        assert(text[position.len() as int] == ' ');
        assert(text.contains(' '));
        let at = text.index_of_first(' ')->0;
        if at < position.len() {
            assert(text[at] == position[at]);
        }
    }
    assert(text.take(position.len() as int) == position);
    assert(text.skip(position.len() as int + 1) == options);
    lemma_after(" LOGICAL "@, text);
    law_name_reads_back(slot_name, written, rest);
    lemma_after("START_REPLICATION SLOT "@, written + rest);
    assert(stream_start(written, start_lsn, publication) == "START_REPLICATION SLOT "@ + (written
        + rest));
}

proof fn lemma_lsn_text_has_no_space(value: u64)
    ensures
        forall|i: int| 0 <= i < lsn_text(value).len() ==> #[trigger] lsn_text(value)[i] != ' ',
{
    let high = number_text((value >> 32) as nat, 16);
    let low = number_text((value & 0xffff_ffff) as nat, 16);
    let text = lsn_text(value);
    law_number_text_reads_back((value >> 32) as nat, 16);
    law_number_text_reads_back((value & 0xffff_ffff) as nat, 16);
    assert(digit_value(' ', 16) is None);
    assert forall|i: int| 0 <= i < text.len() implies #[trigger] text[i] != ' ' by {
        if i < high.len() {
            assert(digit_value(high[i], 16) is Some);
        } else if i > high.len() {
            assert(text[i] == low[i - high.len() - 1]);
            assert(digit_value(low[i - high.len() - 1], 16) is Some);
        }
    }
}

/// The id of the table that a query for columns names.
pub open spec fn id_in_columns_query(query: Seq<char>, head: Seq<char>, tail: Seq<char>) -> Option<
    nat,
> {
    match after(query, head) {
        Some(text) => {
            let at = text.len() - tail.len();
            if at >= 0 && text.skip(at) == tail {
                unsigned_value(text.take(at), 10, u32::MAX as nat)
            } else {
                None
            }
        },
        None => None,
    }
}

/// The query for columns names the id of the table that it was made for, whatever it is, and
/// asks for the columns in the order of the table.
pub proof fn law_columns_query_names_the_table(table_id: TableId)
    ensures
        id_in_columns_query(
            columns_query(table_id),
            "select a.attname,
                a.atttypid,
                a.atttypmod,
                a.attnotnull,
                coalesce(i.indisprimary, false) as primary
            from pg_attribute a
            left join pg_index i
                on a.attrelid = i.indrelid
                and a.attnum = any(i.indkey)
                and i.indisprimary = true
            where a.attnum > 0::int2
            and not a.attisdropped
            and a.attgenerated = ''
            and a.attrelid = "@,
            "
            order by a.attnum
            "@,
        ) == Some(table_id as nat),
{
    let digits = number_text(table_id as nat, 10);
    law_decimal_text_parses(table_id);
    lemma_after(COLUMNS_HEAD@, digits + COLUMNS_TAIL@);
    assert(columns_query(table_id) == COLUMNS_HEAD@ + (digits + COLUMNS_TAIL@));
    assert((digits + COLUMNS_TAIL@).skip(digits.len() as int) == COLUMNS_TAIL@);
    assert((digits + COLUMNS_TAIL@).take(digits.len() as int) == digits);
}

/// The query for a table's id asks for the id and the replica identity of a table, by the name
/// of its schema and by its own.
pub proof fn law_table_query_parts(table: TableNameView)
    ensures
        table_query(table) == "select c.oid,
                c.relreplident
            from pg_class c
            join pg_namespace n
                on (c.relnamespace = n.oid)
            where n.nspname = "@ + quoted_literal(table.schema) + "
                and c.relname = "@ + quoted_literal(table.name) + "
            "@,
{
}

} // verus!
