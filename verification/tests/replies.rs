use pg_replicate::client::ReplicationClient;
use pg_replicate::error::{DriverError, ReplicationClientError};
use pg_replicate::lsn::PgLsn;
use pg_replicate::message::{Field, FieldValue, QueryMessage, QueryReply, QueryRow};
use pg_replicate::replies::SlotInfo;
use pg_replicate::table::{ColumnType, TypeKind};

fn failure() -> tokio_postgres::Error {
    "port=none".parse::<tokio_postgres::Config>().unwrap_err()
}

fn row(fields: &[(&str, Option<&str>)]) -> QueryMessage {
    QueryMessage::Row(QueryRow {
        fields: fields
            .iter()
            .map(|(name, value)| Field {
                name: name.to_string(),
                value: match value {
                    Some(text) => FieldValue::Text(text.to_string()),
                    None => FieldValue::Null,
                },
            })
            .collect(),
    })
}

fn column<'a>(changes: &[(&'a str, Option<&'a str>)]) -> QueryMessage {
    let mut fields = vec![
        ("attname", Some("id")),
        ("atttypid", Some("23")),
        ("atttypmod", Some("-1")),
        ("attnotnull", Some("t")),
        ("primary", Some("t")),
    ];
    for (name, value) in changes {
        for field in fields.iter_mut() {
            if field.0 == *name {
                field.1 = *value;
            }
        }
    }
    row(&fields)
}

fn is_missing<T>(r: Result<T, ReplicationClientError>, column: &str, table: &str) -> bool {
    match r {
        Err(ReplicationClientError::MissingColumn(c, t)) => c == column && t == table,
        _ => false,
    }
}

#[test]
fn columns_in_their_order() {
    let reply: QueryReply = Ok(vec![
        QueryMessage::Other,
        column(&[]),
        column(&[
            ("attname", Some("tags")),
            ("atttypid", Some("1009")),
            ("attnotnull", Some("f")),
            ("primary", Some("f")),
        ]),
        column(&[("attname", Some("mood")), ("atttypid", Some("16999")), ("atttypmod", Some("7"))]),
        QueryMessage::Other,
    ]);
    let columns = ReplicationClient::get_column_schemas(reply).unwrap();
    assert_eq!(columns.len(), 3);
    assert_eq!(columns[0].name, "id");
    assert_eq!(columns[0].typ.name, "int4");
    assert_eq!(columns[0].typ.oid, 23);
    assert_eq!(columns[0].typ.kind, TypeKind::Simple);
    assert_eq!(columns[0].typ.schema, "pg_catalog");
    assert_eq!(columns[0].modifier, -1);
    assert!(!columns[0].nullable);
    assert!(columns[0].primary);
    assert_eq!(columns[1].name, "tags");
    assert_eq!(columns[1].typ.name, "_text");
    assert_eq!(columns[1].typ.kind, TypeKind::Array(25));
    assert!(columns[1].nullable);
    assert!(!columns[1].primary);
    assert_eq!(columns[2].typ.name, "unnamed(oid: 16999)");
    assert_eq!(columns[2].typ.oid, 16999);
    assert_eq!(columns[2].typ.kind, TypeKind::Simple);
    assert_eq!(columns[2].typ.schema, "pg_catalog");
    assert_eq!(columns[2].modifier, 7);
}

#[test]
fn kinds_of_built_in_types() {
    assert_eq!(ColumnType::from_oid(3904).kind, TypeKind::Range(23));
    assert_eq!(ColumnType::from_oid(4451).kind, TypeKind::Multirange(23));
    assert_eq!(ColumnType::from_oid(2276).kind, TypeKind::Pseudo);
    assert_eq!(ColumnType::from_oid(0).name, "unnamed(oid: 0)");
    let found = ColumnType::or_unnamed(1, Some(ColumnType::from_oid(16)));
    assert_eq!(found.name, "bool");
    assert_eq!(ColumnType::or_unnamed(16, None).name, "unnamed(oid: 16)");
}

#[test]
fn no_rows_mean_no_columns() {
    assert!(ReplicationClient::get_column_schemas(Ok(vec![QueryMessage::Other])).unwrap().is_empty());
    assert!(ReplicationClient::get_column_schemas(Ok(vec![])).unwrap().is_empty());
}

#[test]
fn columns_without_a_value() {
    let read = |name| ReplicationClient::get_column_schemas(Ok(vec![column(&[(name, None)])]));
    assert!(is_missing(read("attname"), "attname", "pg_attribute"));
    assert!(is_missing(read("atttypid"), "atttypid", "pg_attribute"));
    assert!(is_missing(read("atttypmod"), "atttypmod", "pg_attribute"));
    assert!(is_missing(read("attnotnull"), "attnotnull", "pg_attribute"));
    assert!(is_missing(read("primary"), "indisprimary", "pg_index"));
}

#[test]
fn columns_with_wrong_numbers() {
    let reply = Ok(vec![column(&[("atttypid", Some("-1"))])]);
    assert!(matches!(
        ReplicationClient::get_column_schemas(reply),
        Err(ReplicationClientError::OidColumnNotU32)
    ));
    let reply = Ok(vec![column(&[("atttypmod", Some("2147483648"))])]);
    assert!(matches!(
        ReplicationClient::get_column_schemas(reply),
        Err(ReplicationClientError::TypeModifierColumnNotI32)
    ));
}

#[test]
fn the_first_error_counts() {
    let reply = Ok(vec![
        column(&[]),
        column(&[("atttypmod", Some("x")), ("primary", None)]),
        column(&[("atttypid", Some("x"))]),
    ]);
    assert!(matches!(
        ReplicationClient::get_column_schemas(reply),
        Err(ReplicationClientError::TypeModifierColumnNotI32)
    ));
}

#[test]
fn columns_that_are_not_there_or_cannot_be_read() {
    let r = ReplicationClient::get_column_schemas(Ok(vec![row(&[("atttypid", Some("23"))])]));
    match r {
        Err(ReplicationClientError::TokioPostgresError(DriverError::Column(name))) => {
            assert_eq!(name, "attname")
        }
        _ => panic!("the column is not there"),
    }
    let unreadable = QueryMessage::Row(QueryRow {
        fields: vec![Field {
            name: "attname".to_string(),
            value: FieldValue::Unreadable("no text".to_string()),
        }],
    });
    match ReplicationClient::get_column_schemas(Ok(vec![unreadable])) {
        Err(ReplicationClientError::TokioPostgresError(DriverError::Value(why))) => {
            assert_eq!(why, "no text")
        }
        _ => panic!("the column cannot be read"),
    }
}

#[test]
fn a_request_that_failed() {
    let text = failure().to_string();
    match ReplicationClient::get_column_schemas(Err(failure())) {
        Err(ReplicationClientError::TokioPostgresError(DriverError::Request(e))) => {
            assert_eq!(e.to_string(), text)
        }
        _ => panic!("the request failed"),
    }
    assert!(ReplicationClient::get_table_id(Err(failure())).is_err());
    assert!(ReplicationClient::get_slot(Err(failure())).is_err());
    assert!(ReplicationClient::create_slot(Err(failure())).is_err());
    assert!(ReplicationClient::get_publication_table_names(Err(failure())).is_err());
    assert!(ReplicationClient::publication_exists(Err(failure())).is_err());
}

#[test]
fn columns_are_found_by_name() {
    let fields = |names: &[&str]| QueryRow {
        fields: names
            .iter()
            .map(|name| Field { name: name.to_string(), value: FieldValue::Null })
            .collect(),
    };
    assert_eq!(fields(&["a", "b", "b"]).column_index("b"), Some(1));
    assert_eq!(fields(&["B", "b"]).column_index("b"), Some(1));
    assert_eq!(fields(&["A", "B", "B"]).column_index("b"), Some(1));
    assert_eq!(fields(&["a", "c"]).column_index("b"), None);
    assert_eq!(fields(&[]).column_index("b"), None);
}

#[test]
fn table_ids() {
    let read = |identity, oid| {
        ReplicationClient::get_table_id(Ok(vec![
            QueryMessage::Other,
            row(&[("oid", oid), ("relreplident", identity)]),
            row(&[("oid", Some("1")), ("relreplident", Some("d"))]),
        ]))
    };
    assert_eq!(read(Some("d"), Some("16386")).unwrap(), Some(16386));
    assert_eq!(read(Some("f"), Some("16386")).unwrap(), Some(16386));
    match read(Some("n"), Some("16386")) {
        Err(ReplicationClientError::ReplicaIdentityNotSupported(identity)) => {
            assert_eq!(identity, "n")
        }
        _ => panic!("the identity is not supported"),
    }
    assert!(matches!(
        read(Some("i"), None),
        Err(ReplicationClientError::ReplicaIdentityNotSupported(_))
    ));
    assert!(is_missing(read(None, Some("16386")), "relreplident", "pg_class"));
    assert!(is_missing(read(Some("d"), None), "oid", "pg_class"));
    assert!(matches!(
        read(Some("d"), Some("4294967296")),
        Err(ReplicationClientError::OidColumnNotU32)
    ));
    assert_eq!(ReplicationClient::get_table_id(Ok(vec![QueryMessage::Other])).unwrap(), None);
}

#[test]
fn slots() {
    let read = |value| ReplicationClient::get_slot(Ok(vec![row(&[("confirmed_flush_lsn", value)])]));
    let slot = SlotInfo { confirmed_flush_lsn: PgLsn { value: 0x16_B374_D848 } };
    assert_eq!(read(Some("16/B374D848")).unwrap(), Some(slot));
    assert!(matches!(read(Some("16")), Err(ReplicationClientError::InvalidPgLsn)));
    assert!(is_missing(read(None), "confirmed_flush_lsn", "pg_replication_slots"));
    assert_eq!(ReplicationClient::get_slot(Ok(vec![QueryMessage::Other])).unwrap(), None);
}

#[test]
fn created_slots() {
    let read = |value| ReplicationClient::create_slot(Ok(vec![row(&[("consistent_point", value)])]));
    let slot = SlotInfo { confirmed_flush_lsn: PgLsn { value: 0x1_0000_0002 } };
    assert_eq!(read(Some("1/2")).unwrap(), slot);
    assert!(matches!(read(Some("x")), Err(ReplicationClientError::InvalidPgLsn)));
    assert!(is_missing(read(None), "consistent_point", "create_replication_slot"));
    assert!(matches!(
        ReplicationClient::create_slot(Ok(vec![])),
        Err(ReplicationClientError::FailedToCreateSlot)
    ));
}

#[test]
fn readable_first_rows() {
    let reply = Ok(vec![row(&[("a", None)])]);
    assert!(ReplicationClient::first_row_is_readable(&reply, "a"));
    assert!(!ReplicationClient::first_row_is_readable(&reply, "b"));
    assert!(ReplicationClient::first_row_is_readable(&Ok(vec![]), "b"));
    assert!(ReplicationClient::first_row_is_readable(&Err(failure()), "b"));
}

#[test]
fn publication_tables() {
    let reply: QueryReply = Ok(vec![
        row(&[("x", Some("public")), ("y", Some("users"))]),
        QueryMessage::Other,
        row(&[("x", Some("s")), ("y", Some("t")), ("z", None)]),
    ]);
    assert!(ReplicationClient::table_rows_are_readable(&reply));
    let names = ReplicationClient::get_publication_table_names(reply).unwrap();
    assert_eq!(names.len(), 2);
    assert_eq!((names[0].schema.as_str(), names[0].name.as_str()), ("public", "users"));
    assert_eq!((names[1].schema.as_str(), names[1].name.as_str()), ("s", "t"));
}

#[test]
fn publication_tables_without_a_value() {
    let reply: QueryReply = Ok(vec![row(&[("x", None)]), row(&[])]);
    assert!(ReplicationClient::table_rows_are_readable(&reply));
    let r = ReplicationClient::get_publication_table_names(reply);
    assert!(is_missing(r, "schemaname", "pg_publication_tables"));
    let reply: QueryReply = Ok(vec![row(&[("x", Some("s")), ("y", None)])]);
    assert!(ReplicationClient::table_rows_are_readable(&reply));
    let r = ReplicationClient::get_publication_table_names(reply);
    assert!(is_missing(r, "tablename", "pg_publication_tables"));
}

#[test]
fn publication_tables_that_cannot_be_read() {
    assert!(!ReplicationClient::table_rows_are_readable(&Ok(vec![row(&[])])));
    assert!(!ReplicationClient::table_rows_are_readable(&Ok(vec![row(&[("x", Some("s"))])])));
    let good = || row(&[("x", Some("s")), ("y", Some("t"))]);
    assert!(!ReplicationClient::table_rows_are_readable(&Ok(vec![good(), row(&[])])));
    assert!(ReplicationClient::table_rows_are_readable(&Ok(vec![])));
    assert!(ReplicationClient::table_rows_are_readable(&Err(failure())));
}

#[test]
fn publications() {
    let exists = |messages| ReplicationClient::publication_exists(Ok(messages)).unwrap();
    assert!(exists(vec![QueryMessage::Other, row(&[("exists", Some("1"))])]));
    assert!(exists(vec![row(&[])]));
    assert!(!exists(vec![QueryMessage::Other]));
    assert!(!exists(vec![]));
}
