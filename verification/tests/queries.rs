use pg_replicate::client::ReplicationClient;
use pg_replicate::lsn::PgLsn;
use pg_replicate::table::TableName;

fn table(schema: &str, name: &str) -> TableName {
    TableName { schema: schema.to_string(), name: name.to_string() }
}

#[test]
fn columns_query() {
    let table_id: u32 = 16386;
    let expected = format!(
        "select a.attname,
                a.atttypid,
                a.atttypmod,
                a.attnotnull,
                coalesce(i.indisprimary, false) as primary
            from pg_attribute a
            left join pg_index i
                on a.attrelid = i.indrelid
                and a.attnum = any(i.indkey)
                and i.indisprimary = true
            where a.attnum > 0::int2
            and not a.attisdropped
            and a.attgenerated = ''
            and a.attrelid = {table_id}
            order by a.attnum
            ",
    );
    assert_eq!(ReplicationClient::get_column_schemas_query(table_id), expected);
    assert_ne!(
        ReplicationClient::get_column_schemas_query(1),
        ReplicationClient::get_column_schemas_query(11)
    );
}

#[test]
fn table_query() {
    let expected = "select c.oid,
                c.relreplident
            from pg_class c
            join pg_namespace n
                on (c.relnamespace = n.oid)
            where n.nspname = 'public'
                and c.relname = E'it''s \\\\ here'
            ";
    assert_eq!(
        ReplicationClient::get_table_id_query(&table("public", "it's \\ here")),
        expected
    );
}

#[test]
fn table_queries_of_two_tables_differ() {
    let a = table("a'", "b");
    let b = table("a", "'b");
    assert_ne!(
        ReplicationClient::get_table_id_query(&a),
        ReplicationClient::get_table_id_query(&b)
    );
}

#[test]
fn slot_queries() {
    assert_eq!(
        ReplicationClient::get_slot_query("my'slot"),
        "select confirmed_flush_lsn from pg_replication_slots where slot_name = 'my''slot';"
    );
    assert_eq!(
        ReplicationClient::create_slot_query("my_slot"),
        "CREATE_REPLICATION_SLOT my_slot LOGICAL pgoutput USE_SNAPSHOT"
    );
    assert_eq!(
        ReplicationClient::create_slot_query("My\"slot"),
        "CREATE_REPLICATION_SLOT \"My\"\"slot\" LOGICAL pgoutput USE_SNAPSHOT"
    );
    assert_eq!(
        ReplicationClient::create_slot_query("select"),
        "CREATE_REPLICATION_SLOT \"select\" LOGICAL pgoutput USE_SNAPSHOT"
    );
}

#[test]
fn publication_queries() {
    assert_eq!(
        ReplicationClient::get_publication_table_names_query("p"),
        "select schemaname, tablename from pg_publication_tables where pubname = 'p';"
    );
    assert_eq!(
        ReplicationClient::publication_exists_query("p\\"),
        "select 1 as exists from pg_publication where pubname = E'p\\\\';"
    );
    assert_eq!(
        ReplicationClient::publication_exists_query(""),
        "select 1 as exists from pg_publication where pubname = '';"
    );
}

#[test]
fn copy_query() {
    assert_eq!(
        ReplicationClient::get_table_copy_stream_query(&table("public", "Users")),
        "COPY public.\"Users\" TO STDOUT WITH (FORMAT text);"
    );
    assert_eq!(table("a.b", "table").as_quoted_identifier(), "\"a.b\".\"table\"");
}

#[test]
fn stream_query() {
    assert_eq!(
        ReplicationClient::get_logical_replication_stream_query(
            "my pub",
            "1slot",
            PgLsn { value: 0x16_B374_D848 }
        ),
        "START_REPLICATION SLOT \"1slot\" LOGICAL 16/B374D848 \
         (\"proto_version\" '1', \"publication_names\" 'my pub')"
    );
}
