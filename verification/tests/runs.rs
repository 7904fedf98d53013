use pg_replicate::client::ReplicationClient;
use pg_replicate::error::{DriverError, ReplicationClientError};
use pg_replicate::lsn::PgLsn;
use pg_replicate::message::{Field, FieldValue, QueryMessage, QueryReply, QueryRow};
use pg_replicate::replies::SlotInfo;
use pg_replicate::table::{TableId, TableName, TableSchema};

fn failure() -> tokio_postgres::Error {
    "port=none".parse::<tokio_postgres::Config>().unwrap_err()
}

fn row(fields: &[(&str, &str)]) -> QueryMessage {
    QueryMessage::Row(QueryRow {
        fields: fields
            .iter()
            .map(|(name, value)| Field {
                name: name.to_string(),
                value: FieldValue::Text(value.to_string()),
            })
            .collect(),
    })
}

fn run_slot(
    client: &mut ReplicationClient,
    replies: Vec<QueryReply>,
) -> (Vec<String>, Result<SlotInfo, ReplicationClientError>) {
    let mut sent = vec![];
    let mut replies = replies.into_iter();
    let mut run = ReplicationClient::get_or_create_slot("s");
    while let Some(query) = run.next_query() {
        sent.push(query);
        let reply = replies.next().unwrap();
        assert!(run.can_read(&reply));
        run.handle_reply(client, reply);
    }
    assert!(replies.next().is_none());
    (sent, run.finish().unwrap())
}

const LOOK_UP: &str = "select confirmed_flush_lsn from pg_replication_slots where slot_name = 's';";
const ROLLBACK: &str = "rollback;";
const BEGIN: &str = "begin read only isolation level repeatable read;";
const CREATE: &str = "CREATE_REPLICATION_SLOT s LOGICAL pgoutput USE_SNAPSHOT";

#[test]
fn an_existing_slot_is_returned_and_the_transaction_stays() {
    for in_txn in [false, true] {
        let mut client = ReplicationClient { in_txn };
        let found = Ok(vec![row(&[("confirmed_flush_lsn", "0/A")])]);
        let (sent, outcome) = run_slot(&mut client, vec![found]);
        assert_eq!(sent, vec![LOOK_UP]);
        assert_eq!(outcome.unwrap(), SlotInfo { confirmed_flush_lsn: PgLsn { value: 10 } });
        assert_eq!(client.in_txn, in_txn);
    }
}

#[test]
fn a_missing_slot_is_made_in_a_new_transaction() {
    let made = || Ok(vec![row(&[("consistent_point", "0/B")])]);
    let mut client = ReplicationClient::new();
    let (sent, outcome) = run_slot(&mut client, vec![Ok(vec![]), Ok(vec![]), made()]);
    assert_eq!(sent, vec![LOOK_UP, BEGIN, CREATE]);
    assert_eq!(outcome.unwrap(), SlotInfo { confirmed_flush_lsn: PgLsn { value: 11 } });
    assert!(client.in_txn);

    let mut client = ReplicationClient { in_txn: true };
    let replies = vec![Ok(vec![]), Ok(vec![]), Ok(vec![]), made()];
    let (sent, outcome) = run_slot(&mut client, replies);
    assert_eq!(sent, vec![LOOK_UP, ROLLBACK, BEGIN, CREATE]);
    assert!(outcome.is_ok());
    assert!(client.in_txn);
}

#[test]
fn a_failed_request_ends_the_making_of_a_slot() {
    let mut client = ReplicationClient { in_txn: true };
    let (sent, outcome) = run_slot(&mut client, vec![Err(failure())]);
    assert_eq!(sent.len(), 1);
    assert!(outcome.is_err());
    assert!(client.in_txn);

    let (sent, outcome) = run_slot(&mut client, vec![Ok(vec![]), Err(failure())]);
    assert_eq!(sent.len(), 2);
    assert!(matches!(
        outcome,
        Err(ReplicationClientError::TokioPostgresError(DriverError::Request(_)))
    ));
    assert!(client.in_txn);

    let (sent, outcome) = run_slot(&mut client, vec![Ok(vec![]), Ok(vec![]), Err(failure())]);
    assert_eq!(sent.len(), 3);
    assert!(outcome.is_err());
    assert!(!client.in_txn);

    let (sent, outcome) = run_slot(&mut client, vec![Ok(vec![]), Ok(vec![]), Ok(vec![])]);
    assert_eq!(sent.len(), 3);
    assert!(matches!(outcome, Err(ReplicationClientError::FailedToCreateSlot)));
    assert!(client.in_txn);
}

#[test]
fn a_reply_without_the_column_cannot_be_read() {
    let run = ReplicationClient::get_or_create_slot("s");
    assert!(!run.can_read(&Ok(vec![row(&[("x", "0/A")])])));
    assert!(run.finish().is_none());
}

fn name(name: &str) -> TableName {
    TableName { schema: "public".to_string(), name: name.to_string() }
}

fn id(oid: &str) -> QueryReply {
    Ok(vec![row(&[("oid", oid), ("relreplident", "d")])])
}

fn columns(primary: &str) -> QueryReply {
    Ok(vec![row(&[
        ("attname", "c"),
        ("atttypid", "25"),
        ("atttypmod", "-1"),
        ("attnotnull", "t"),
        ("primary", primary),
    ])])
}

fn run_schemas(
    names: &[TableName],
    replies: Vec<QueryReply>,
) -> (
    usize,
    Vec<TableId>,
    Result<std::collections::HashMap<TableId, TableSchema>, ReplicationClientError>,
) {
    let mut sent = 0;
    let mut skipped = vec![];
    let mut replies = replies.into_iter();
    let mut run = ReplicationClient::get_table_schemas(names);
    while run.next_query().is_some() {
        sent += 1;
        if let Some(table) = run.handle_reply(replies.next().unwrap()) {
            skipped.push(table.table_id);
        }
    }
    assert!(replies.next().is_none());
    (sent, skipped, run.finish().unwrap())
}

#[test]
fn tables_with_a_primary_key_are_kept() {
    let names = vec![name("a"), name("b"), name("c")];
    let replies = vec![id("1"), columns("t"), id("2"), columns("f"), id("3"), columns("t")];
    let (sent, skipped, outcome) = run_schemas(&names, replies);
    let schemas = outcome.unwrap();
    assert_eq!(sent, 6);
    assert_eq!(skipped, vec![2]);
    assert_eq!(schemas.len(), 2);
    assert_eq!(schemas[&1].table_name.name, "a");
    assert_eq!(schemas[&1].table_id, 1);
    assert_eq!(schemas[&1].column_schemas[0].name, "c");
    assert_eq!(schemas[&3].table_name.name, "c");
}

#[test]
fn of_two_tables_with_one_id_the_later_stays() {
    let names = vec![name("a"), name("b")];
    let (_, _, outcome) = run_schemas(&names, vec![id("1"), columns("t"), id("1"), columns("t")]);
    let schemas = outcome.unwrap();
    assert_eq!(schemas.len(), 1);
    assert_eq!(schemas[&1].table_name.name, "b");
}

#[test]
fn the_queries_for_tables() {
    let mut run = ReplicationClient::get_table_schemas(&[name("a")]);
    assert_eq!(run.next_query().unwrap(), ReplicationClient::get_table_id_query(&name("a")));
    assert!(run.handle_reply(id("7")).is_none());
    assert_eq!(run.next_query().unwrap(), ReplicationClient::get_column_schemas_query(7));
    assert!(run.finish().is_none());
}

#[test]
fn the_first_table_that_cannot_be_read_ends_the_reading() {
    let names = vec![name("a"), name("b"), name("c")];
    let replies = vec![id("1"), columns("t"), Ok(vec![])];
    let (sent, _, outcome) = run_schemas(&names, replies);
    assert_eq!(sent, 3);
    match outcome {
        Err(ReplicationClientError::MissingTable(table)) => assert_eq!(table.name, "b"),
        _ => panic!("the table is missing"),
    }
    let (sent, _, outcome) = run_schemas(&names, vec![id("1"), Err(failure())]);
    assert_eq!(sent, 2);
    assert!(outcome.is_err());
    let (sent, _, outcome) = run_schemas(&names, vec![id("x")]);
    assert_eq!(sent, 1);
    assert!(matches!(outcome, Err(ReplicationClientError::OidColumnNotU32)));
    let (sent, _, outcome) = run_schemas(&[], vec![]);
    assert_eq!(sent, 0);
    assert!(outcome.unwrap().is_empty());
}

#[test]
fn transactions() {
    let mut client = ReplicationClient::new();
    assert!(!client.in_txn);
    assert!(client.commit_txn_query().is_none());
    assert!(client.commit_txn(None).is_ok());
    assert!(client.rollback_txn_query().is_none());
    assert!(client.rollback_txn(None).is_ok());
    assert!(!client.in_txn);

    assert_eq!(ReplicationClient::begin_readonly_transaction_query(), BEGIN);
    assert!(client.begin_readonly_transaction(Err(failure())).is_err());
    assert!(!client.in_txn);
    assert!(client.begin_readonly_transaction(Ok(vec![])).is_ok());
    assert!(client.in_txn);

    assert_eq!(client.commit_txn_query().unwrap(), "commit;");
    assert!(client.commit_txn(Some(Err(failure()))).is_err());
    assert!(client.in_txn);
    assert!(client.commit_txn(Some(Ok(vec![]))).is_ok());
    assert!(!client.in_txn);
    assert!(client.commit_txn_query().is_none());

    assert!(client.begin_readonly_transaction(Ok(vec![])).is_ok());
    assert_eq!(client.rollback_txn_query().unwrap(), ROLLBACK);
    assert!(client.rollback_txn(Some(Ok(vec![]))).is_ok());
    assert!(!client.in_txn);
}
