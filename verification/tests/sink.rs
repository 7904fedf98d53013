use std::collections::HashMap;

use pg_replicate::lsn::PgLsn;
use pg_replicate::sink::{CdcEvent, NotificationSink, NotificationSinkError, TableRow};

fn sink() -> NotificationSink {
    NotificationSink { lsn: 5, committed_lsn: None, final_lsn: None }
}

fn lsn(value: u64) -> PgLsn {
    PgLsn { value }
}

fn insert(values: &[i32]) -> CdcEvent<i32> {
    CdcEvent::Insert((1, TableRow { values: values.to_vec() }))
}

fn begin(final_lsn: u64) -> CdcEvent<i32> {
    CdcEvent::Begin { final_lsn }
}

fn commit(commit_lsn: u64) -> CdcEvent<i32> {
    CdcEvent::Commit { commit_lsn }
}

#[test]
fn replication_starts_at_the_given_position() {
    let mut sink = sink();
    let state = sink.get_resumption_state().unwrap();
    assert!(state.copied_tables.is_empty());
    assert_eq!(state.last_lsn, lsn(5));
    assert_eq!(sink.committed_lsn, Some(lsn(5)));
    assert_eq!(sink.final_lsn, None);
}

#[test]
fn a_transaction_is_committed() {
    let mut sink = sink();
    let events = vec![begin(9), insert(&[1, 2]), CdcEvent::Other, insert(&[3]), commit(9)];
    let batch = sink.write_cdc_events(events).unwrap();
    assert_eq!(batch.rows, vec![vec![1, 2], vec![3]]);
    assert_eq!(batch.last_commit, lsn(9));
    assert_eq!(sink.committed_lsn, None);
    assert!(sink.has_commit_after(batch.last_commit));
    assert_eq!(sink.finish_cdc_events(batch.last_commit), lsn(9));
    assert_eq!(sink.committed_lsn, Some(lsn(9)));
    assert_eq!(sink.final_lsn, Some(lsn(9)));
}

#[test]
fn a_batch_without_a_commit_reports_the_position_before_it() {
    let mut sink = sink();
    let batch = sink.write_cdc_events(vec![insert(&[1])]).unwrap();
    assert_eq!(batch.last_commit, lsn(0));
    assert!(!sink.has_commit_after(batch.last_commit));
    sink.get_resumption_state().unwrap();
    assert!(sink.has_commit_after(batch.last_commit));
    assert_eq!(sink.finish_cdc_events(batch.last_commit), lsn(5));
}

#[test]
fn a_transaction_over_two_batches() {
    let mut sink = sink();
    sink.get_resumption_state().unwrap();
    let batch = sink.write_cdc_events(vec![begin(9), insert(&[1])]).unwrap();
    assert_eq!(sink.finish_cdc_events(batch.last_commit), lsn(5));
    let batch = sink.write_cdc_events(vec![insert(&[2]), commit(9)]).unwrap();
    assert_eq!(batch.rows, vec![vec![2]]);
    assert_eq!(sink.finish_cdc_events(batch.last_commit), lsn(9));
}

#[test]
fn one_start_serves_two_commits() {
    let mut sink = sink();
    let batch = sink.write_cdc_events(vec![begin(9), commit(9), commit(9)]).unwrap();
    assert_eq!(batch.last_commit, lsn(9));
}

#[test]
fn a_commit_at_another_position() {
    let mut sink = sink();
    sink.get_resumption_state().unwrap();
    let events = vec![begin(9), insert(&[1]), commit(8), begin(7)];
    let error = sink.write_cdc_events(events).unwrap_err();
    assert_eq!(error, NotificationSinkError::IncorrectCommitLsn(lsn(8), lsn(9)));
    assert_eq!(sink.final_lsn, Some(lsn(9)));
    assert_eq!(sink.committed_lsn, Some(lsn(5)));
}

#[test]
fn a_commit_without_a_start() {
    let mut sink = sink();
    let error = sink.write_cdc_events(vec![insert(&[1]), commit(8)]).unwrap_err();
    assert_eq!(error, NotificationSinkError::CommitWithoutBegin);
    assert_eq!(sink.final_lsn, None);
}

#[test]
fn a_commit_at_zero_counts_as_none() {
    let mut sink = sink();
    sink.get_resumption_state().unwrap();
    let batch = sink.write_cdc_events(vec![begin(3), commit(3), begin(0), commit(0)]).unwrap();
    assert_eq!(batch.last_commit, lsn(0));
    assert_eq!(sink.finish_cdc_events(batch.last_commit), lsn(5));
}

#[test]
fn two_batches_commit_as_one() {
    let events = || vec![begin(9), insert(&[1]), commit(9), begin(11), insert(&[2]), commit(11)];
    let mut one = sink();
    let whole = one.write_cdc_events(events()).unwrap();
    for cut in 0..7 {
        let mut two = sink();
        two.get_resumption_state().unwrap();
        let mut first = events();
        let second = first.split_off(cut);
        let a = two.write_cdc_events(first).unwrap();
        two.finish_cdc_events(a.last_commit);
        let b = two.write_cdc_events(second).unwrap();
        assert_eq!(two.finish_cdc_events(b.last_commit), whole.last_commit);
        let mut rows = a.rows;
        rows.extend(b.rows);
        assert_eq!(rows, whole.rows);
    }
}

#[test]
fn the_rest_is_of_no_interest() {
    let mut sink = sink();
    let before = sink;
    assert!(sink.write_table_schemas(HashMap::new()).is_ok());
    assert!(sink.write_table_rows(vec![TableRow { values: vec![1] }], 1).is_ok());
    assert!(sink.table_copied(1).is_ok());
    assert!(sink.truncate_table(1).is_ok());
    assert_eq!(sink, before);
}
