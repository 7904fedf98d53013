//! A sink that hands inserted rows to a listener and remembers the committed position.

use std::collections::{HashMap, HashSet};
use vstd::prelude::*;

use crate::lsn::PgLsn;
use crate::table::{TableId, TableSchema};

verus! {

broadcast use vstd::std_specs::hash::group_hash_axioms;

/// A row of a table, cell by cell.
#[derive(Debug)]
pub struct TableRow<C> {
    pub values: Vec<C>,
}

/// A change that the server reports, over cells of some type.
#[derive(Debug)]
pub enum CdcEvent<C> {
    /// A transaction starts, which will be committed at a position.
    Begin { final_lsn: u64 },
    /// A transaction was committed at a position.
    Commit { commit_lsn: u64 },
    /// A row was inserted into a table.
    Insert((TableId, TableRow<C>)),
    /// Anything else.
    Other,
}

/// An error of the sink.
#[derive(Clone, Copy, Debug, PartialEq, Eq, Structural)]
pub enum NotificationSinkError {
    /// A transaction was committed at another position than its start had announced: the
    /// position of the commit, and the announced one.
    IncorrectCommitLsn(PgLsn, PgLsn),
    /// A transaction was committed that had not started.
    CommitWithoutBegin,
}

/// Where replication goes on after a restart.
#[derive(Debug)]
pub struct PipelineResumptionState {
    pub copied_tables: HashSet<TableId>,
    pub last_lsn: PgLsn,
}

/// What the sink remembers.
#[derive(Clone, Copy, Debug, PartialEq, Eq, Structural)]
pub struct NotificationSink {
    /// The position that replication starts from.
    pub lsn: u64,
    /// The position up to which everything is committed.
    pub committed_lsn: Option<PgLsn>,
    /// The position that the last start of a transaction announced.
    pub final_lsn: Option<PgLsn>,
}

/// What a batch of changes holds for the listener, and the position of its last commit, or
/// zero where it has none.
#[derive(Debug)]
pub struct CdcBatch<C> {
    pub rows: Vec<Vec<C>>,
    pub last_commit: PgLsn,
}

/// Rows as a sequence of sequences of cells.
pub open spec fn rows_view<C>(rows: Seq<Vec<C>>) -> Seq<Seq<C>> {
    rows.map_values(|row: Vec<C>| row@)
}

/// How far a batch of changes was read.
#[verifier::ext_equal]
pub struct BatchView<C> {
    pub final_lsn: Option<PgLsn>,
    pub last_commit: PgLsn,
    pub rows: Seq<Seq<C>>,
    pub error: Option<NotificationSinkError>,
}

/// What one more change makes of a batch without an error.
pub open spec fn with_event<C>(batch: BatchView<C>, event: CdcEvent<C>) -> BatchView<C> {
    match event {
        CdcEvent::Begin { final_lsn } => BatchView {
            final_lsn: Some(PgLsn { value: final_lsn }),
            ..batch
        },
        CdcEvent::Commit { commit_lsn } => {
            let commit_lsn = PgLsn { value: commit_lsn };
            match batch.final_lsn {
                None => BatchView { error: Some(NotificationSinkError::CommitWithoutBegin), ..batch },
                Some(final_lsn) => if commit_lsn == final_lsn {
                    BatchView { last_commit: commit_lsn, ..batch }
                } else {
                    BatchView {
                        error: Some(
                            NotificationSinkError::IncorrectCommitLsn(commit_lsn, final_lsn),
                        ),
                        ..batch
                    }
                },
            }
        },
        CdcEvent::Insert((_, row)) => BatchView { rows: batch.rows.push(row.values@), ..batch },
        CdcEvent::Other => batch,
    }
}

/// What a batch of changes comes to, read in order up to the first error, where `final_lsn` was
/// announced before it.
pub open spec fn batch_read<C>(final_lsn: Option<PgLsn>, events: Seq<CdcEvent<C>>) -> BatchView<C>
    decreases events.len(),
{
    if events.len() == 0 {
        BatchView { final_lsn, last_commit: PgLsn { value: 0 }, rows: seq![], error: None }
    } else {
        let before = batch_read(final_lsn, events.drop_last());
        if before.error is Some {
            before
        } else {
            with_event(before, events.last())
        }
    }
}

/// The committed position after a batch whose last commit was at `last_commit`: zero stands for
/// none.
pub open spec fn committed_after(committed_lsn: Option<PgLsn>, last_commit: PgLsn) -> Option<
    PgLsn,
> {
    if last_commit.value != 0 {
        Some(last_commit)
    } else {
        committed_lsn
    }
}

proof fn lemma_batch_step<C>(final_lsn: Option<PgLsn>, events: Seq<CdcEvent<C>>, i: int)
    requires
        0 <= i < events.len(),
        batch_read(final_lsn, events.take(i)).error is None,
    ensures
        batch_read(final_lsn, events.take(i + 1)) == with_event(
            batch_read(final_lsn, events.take(i)),
            events[i],
        ),
{
    assert(events.take(i + 1).drop_last() == events.take(i));
    assert(events.take(i + 1).last() == events[i]);
}

proof fn lemma_batch_error_stays<C>(final_lsn: Option<PgLsn>, events: Seq<CdcEvent<C>>, n: int)
    requires
        0 <= n <= events.len(),
        batch_read(final_lsn, events.take(n)).error is Some,
    ensures
        batch_read(final_lsn, events) == batch_read(final_lsn, events.take(n)),
    decreases events.len() - n,
{
    if n == events.len() {
        assert(events.take(n) == events);
    } else {
        assert(events.take(n + 1).drop_last() == events.take(n));
        lemma_batch_error_stays(final_lsn, events, n + 1);
    }
}

impl NotificationSink {
    /// Where replication starts: no table was copied, and everything up to the start counts as
    /// committed.
    pub fn get_resumption_state(&mut self) -> (r: Result<
        PipelineResumptionState,
        NotificationSinkError,
    >)
        ensures
            r matches Ok(state) && state.copied_tables@ == Set::<TableId>::empty()
                && state.last_lsn == (PgLsn { value: old(self).lsn }),
            *final(self) == (NotificationSink {
                committed_lsn: Some(PgLsn { value: old(self).lsn }),
                ..*old(self)
            }),
    {
        self.committed_lsn = Some(PgLsn::from(self.lsn));
        Ok(PipelineResumptionState { copied_tables: HashSet::new(), last_lsn: PgLsn::from(self.lsn) })
    }

    /// Table schemas are of no interest to the sink.
    pub fn write_table_schemas(&mut self, table_schemas: HashMap<TableId, TableSchema>) -> (r:
        Result<(), NotificationSinkError>)
        ensures
            r is Ok,
            *final(self) == *old(self),
    {
        Ok(())
    }

    /// Copied rows are of no interest to the sink.
    pub fn write_table_rows<C>(&mut self, rows: Vec<TableRow<C>>, _table_id: TableId) -> (r: Result<
        (),
        NotificationSinkError,
    >)
        ensures
            r is Ok,
            *final(self) == *old(self),
    {
        Ok(())
    }

    /// Reads a batch of changes: the inserted rows, for the listener, and the last commit. The
    /// position that the last start of a transaction announced is remembered, also where an
    /// error ends the reading.
    pub fn write_cdc_events<C>(&mut self, events: Vec<CdcEvent<C>>) -> (r: Result<
        CdcBatch<C>,
        NotificationSinkError,
    >)
        ensures
            ({
                let read = batch_read(old(self).final_lsn, events@);
                &&& match read.error {
                    None => r matches Ok(batch) && rows_view(batch.rows@) == read.rows
                        && batch.last_commit == read.last_commit,
                    Some(e) => r == Err::<CdcBatch<C>, NotificationSinkError>(e),
                }
                &&& *final(self) == (NotificationSink {
                    final_lsn: read.final_lsn,
                    ..*old(self)
                })
            }),
    {
        let ghost all = events@;
        let ghost before = *self;
        let mut rows: Vec<Vec<C>> = Vec::new();
        let mut last_commit = PgLsn::from(0);
        assert(all.take(0) == Seq::<CdcEvent<C>>::empty());
        assert(rows_view(rows@) == Seq::<Seq<C>>::empty());
        for event in iter: events
            invariant
                all == events@,
                all == iter.seq(),
                before == *old(self),
                *self == (NotificationSink { final_lsn: self.final_lsn, ..before }),
                batch_read(before.final_lsn, all.take(iter.index() as int)) == (BatchView {
                    final_lsn: self.final_lsn,
                    last_commit,
                    rows: rows_view(rows@),
                    error: None,
                }),
        {
            let ghost i = iter.index() as int;
            proof {
                lemma_batch_step(before.final_lsn, all, i);
            }
            match event {
                CdcEvent::Begin { final_lsn } => {
                    self.final_lsn = Some(PgLsn::from(final_lsn));
                },
                CdcEvent::Commit { commit_lsn } => {
                    let commit_lsn = PgLsn::from(commit_lsn);
                    if let Some(final_lsn) = self.final_lsn {
                        if commit_lsn == final_lsn {
                            last_commit = commit_lsn;
                        } else {
                            proof {
                                lemma_batch_error_stays(before.final_lsn, all, i + 1);
                            }
                            return Err(
                                NotificationSinkError::IncorrectCommitLsn(commit_lsn, final_lsn),
                            );
                        }
                    } else {
                        proof {
                            lemma_batch_error_stays(before.final_lsn, all, i + 1);
                        }
                        return Err(NotificationSinkError::CommitWithoutBegin);
                    }
                },
                CdcEvent::Insert((_, row)) => {
                    let ghost earlier = rows@;
                    rows.push(row.values);
                    assert(rows_view(rows@) == rows_view(earlier).push(row.values@));
                },
                CdcEvent::Other => {},
            }
        }
        assert(all.take(all.len() as int) == all);
        Ok(CdcBatch { rows, last_commit })
    }

    /// Whether there is a committed position to report after a batch.
    pub fn has_commit_after(&self, last_commit: PgLsn) -> (r: bool)
        ensures
            r == (committed_after(self.committed_lsn, last_commit) is Some),
    {
        last_commit.value != 0 || self.committed_lsn.is_some()
    }

    /// Ends a batch that was handed to the listener: takes note of its last commit, and
    /// reports the committed position.
    pub fn finish_cdc_events(&mut self, last_commit: PgLsn) -> (r: PgLsn)
        requires
            committed_after(old(self).committed_lsn, last_commit) is Some,
        ensures
            *final(self) == (NotificationSink {
                committed_lsn: committed_after(old(self).committed_lsn, last_commit),
                ..*old(self)
            }),
            Some(r) == committed_after(old(self).committed_lsn, last_commit),
    {
        if last_commit != PgLsn::from(0) {
            self.committed_lsn = Some(last_commit);
        }
        self.committed_lsn.unwrap()
    }

    /// That a table was copied is of no interest to the sink.
    pub fn table_copied(&mut self, table_id: TableId) -> (r: Result<(), NotificationSinkError>)
        ensures
            r is Ok,
            *final(self) == *old(self),
    {
        Ok(())
    }

    /// That a table was emptied is of no interest to the sink.
    pub fn truncate_table(&mut self, table_id: TableId) -> (r: Result<(), NotificationSinkError>)
        ensures
            r is Ok,
            *final(self) == *old(self),
    {
        Ok(())
    }
}

/// The position that the last start of a transaction among the changes announced, or else the
/// one that was announced before them.
pub open spec fn announced<C>(final_lsn: Option<PgLsn>, events: Seq<CdcEvent<C>>) -> Option<PgLsn>
    decreases events.len(),
{
    if events.len() == 0 {
        final_lsn
    } else {
        match events.last() {
            CdcEvent::Begin { final_lsn } => Some(PgLsn { value: final_lsn }),
            _ => announced(final_lsn, events.drop_last()),
        }
    }
}

/// The inserted rows among the changes, in their order.
pub open spec fn inserted_rows<C>(events: Seq<CdcEvent<C>>) -> Seq<Seq<C>>
    decreases events.len(),
{
    if events.len() == 0 {
        seq![]
    } else {
        match events.last() {
            CdcEvent::Insert((_, row)) => inserted_rows(events.drop_last()).push(row.values@),
            _ => inserted_rows(events.drop_last()),
        }
    }
}

/// Whether a commit is among the changes.
pub open spec fn has_commit<C>(events: Seq<CdcEvent<C>>) -> bool {
    exists|i: int| 0 <= i < events.len() && #[trigger] events[i] is Commit
}

/// The position of the last commit among the changes, or zero where there is none.
pub open spec fn last_commit<C>(events: Seq<CdcEvent<C>>) -> PgLsn
    decreases events.len(),
{
    if events.len() == 0 {
        PgLsn { value: 0 }
    } else {
        match events.last() {
            CdcEvent::Commit { commit_lsn } => PgLsn { value: commit_lsn },
            _ => last_commit(events.drop_last()),
        }
    }
}

/// Whether the change at position `i` is no commit, or one at the position that was announced.
pub open spec fn commit_as_announced<C>(
    final_lsn: Option<PgLsn>,
    events: Seq<CdcEvent<C>>,
    i: int,
) -> bool {
    events[i] matches CdcEvent::Commit { commit_lsn } ==> announced(final_lsn, events.take(i))
        == Some(PgLsn { value: commit_lsn })
}

/// A batch is accepted exactly where each commit in it is at the position that the last start
/// of a transaction announced. The rows are then those that were inserted, all of them and in
/// their order, the last commit is the last in the batch, and what the last start announced is
/// remembered.
pub proof fn law_batch_read<C>(final_lsn: Option<PgLsn>, events: Seq<CdcEvent<C>>)
    ensures
        batch_read(final_lsn, events).error is None <==> (forall|i: int|
            0 <= i < events.len() ==> #[trigger] commit_as_announced(final_lsn, events, i)),
        batch_read(final_lsn, events).error is None ==> batch_read(final_lsn, events) == (
        BatchView {
            final_lsn: announced(final_lsn, events),
            last_commit: last_commit(events),
            rows: inserted_rows(events),
            error: None,
        }),
    decreases events.len(),
{
    if events.len() > 0 {
        let init = events.drop_last();
        let last = events.len() - 1;
        law_batch_read(final_lsn, init);
        assert(events.take(last) == init);
        assert forall|i: int| 0 <= i < last implies commit_as_announced(final_lsn, init, i)
            == #[trigger] commit_as_announced(final_lsn, events, i) by {
            assert(init.take(i) == events.take(i));
        }
        if batch_read(final_lsn, init).error is None {
            assert(batch_read(final_lsn, events).error is None <==> commit_as_announced(
                final_lsn,
                events,
                last,
            ));
            assert forall|i: int| 0 <= i < last implies #[trigger] commit_as_announced(
                final_lsn,
                events,
                i,
            ) by {
                assert(commit_as_announced(final_lsn, init, i));
            }
        } else {
            let i = choose|i: int|
                0 <= i < init.len() && !#[trigger] commit_as_announced(final_lsn, init, i);
            assert(!commit_as_announced(final_lsn, events, i));
        }
    }
}

/// A batch that fails does so at its first commit that is not at the announced position: the
/// error holds both positions, or says that nothing was announced, and nothing after that
/// commit is read.
pub proof fn law_batch_fails_at_first_wrong_commit<C>(
    final_lsn: Option<PgLsn>,
    events: Seq<CdcEvent<C>>,
    n: int,
    commit_lsn: u64,
)
    requires
        0 <= n < events.len(),
        events[n] == (CdcEvent::<C>::Commit { commit_lsn }),
        forall|i: int| 0 <= i < n ==> #[trigger] commit_as_announced(final_lsn, events, i),
        !commit_as_announced(final_lsn, events, n),
    ensures
        batch_read(final_lsn, events).error == Some(
            match announced(final_lsn, events.take(n)) {
                None => NotificationSinkError::CommitWithoutBegin,
                Some(final_lsn) => NotificationSinkError::IncorrectCommitLsn(
                    PgLsn { value: commit_lsn },
                    final_lsn,
                ),
            },
        ),
        batch_read(final_lsn, events).final_lsn == announced(final_lsn, events.take(n)),
{
    let before = events.take(n);
    assert forall|i: int| 0 <= i < n implies #[trigger] commit_as_announced(
        final_lsn,
        before,
        i,
    ) by {
        assert(before.take(i) == events.take(i));
        assert(commit_as_announced(final_lsn, events, i));
    }
    law_batch_read(final_lsn, before);
    lemma_batch_step(final_lsn, events, n);
    lemma_batch_error_stays(final_lsn, events, n + 1);
}

/// A batch can be cut anywhere: reading the first part, and then the second with what the first
/// announced, ends as reading both at once does, with the rows of both in turn, and with the
/// last commit of the second, or else of the first.
pub proof fn law_batch_in_two_parts<C>(
    final_lsn: Option<PgLsn>,
    first: Seq<CdcEvent<C>>,
    second: Seq<CdcEvent<C>>,
)
    requires
        batch_read(final_lsn, first).error is None,
    ensures
        ({
            let a = batch_read(final_lsn, first);
            let b = batch_read(a.final_lsn, second);
            let whole = batch_read(final_lsn, first + second);
            &&& whole.error == b.error
            &&& whole.final_lsn == b.final_lsn
            &&& whole.rows == a.rows + b.rows
            &&& b.error is None ==> whole.last_commit == if has_commit(second) {
                b.last_commit
            } else {
                a.last_commit
            }
        }),
    decreases second.len(),
{
    let a = batch_read(final_lsn, first);
    if second.len() == 0 {
        assert(first + second == first);
        assert(a.rows + Seq::<Seq<C>>::empty() == a.rows);
    } else {
        let init = second.drop_last();
        let last = second.last();
        law_batch_in_two_parts(final_lsn, first, init);
        assert((first + second).drop_last() == first + init);
        assert((first + second).last() == last);
        let b = batch_read(a.final_lsn, init);
        assert(has_commit(second) == (has_commit(init) || last is Commit)) by {
            if has_commit(init) {
                let i = choose|i: int| 0 <= i < init.len() && #[trigger] init[i] is Commit;
                assert(second[i] is Commit);
            }
            if has_commit(second) {
                let i = choose|i: int| 0 <= i < second.len() && #[trigger] second[i] is Commit;
                if i < init.len() {
                    assert(init[i] is Commit);
                }
            }
            assert(second[second.len() - 1] == last);
        }
        if b.error is None {
            if let CdcEvent::Insert((_, row)) = last {
                assert(a.rows + b.rows.push(row.values@) == (a.rows + b.rows).push(row.values@));
            }
        }
    }
}

/// Two batches, each handed over and finished, leave the committed position where one batch
/// with the changes of both leaves it. The exception is a first batch whose last commit is at
/// a new position above zero, followed by a second whose last commit is at zero, which stands
/// for none.
pub proof fn law_two_batches_commit_as_one<C>(
    sink: NotificationSink,
    first: Seq<CdcEvent<C>>,
    second: Seq<CdcEvent<C>>,
)
    requires
        batch_read(sink.final_lsn, first).error is None,
        batch_read(sink.final_lsn, first + second).error is None,
        !(has_commit(second) && last_commit(second).value == 0 && last_commit(first).value != 0
            && sink.committed_lsn != Some(last_commit(first))),
    ensures
        ({
            let a = batch_read(sink.final_lsn, first);
            let b = batch_read(a.final_lsn, second);
            let whole = batch_read(sink.final_lsn, first + second);
            &&& committed_after(committed_after(sink.committed_lsn, a.last_commit), b.last_commit)
                == committed_after(sink.committed_lsn, whole.last_commit)
            &&& whole.rows == a.rows + b.rows
            &&& whole.final_lsn == b.final_lsn
        }),
{
    law_batch_in_two_parts(sink.final_lsn, first, second);
    law_batch_read(sink.final_lsn, first);
    let a = batch_read(sink.final_lsn, first);
    law_batch_read(a.final_lsn, second);
    if !has_commit(second) {
        lemma_no_commit(second);
    }
}

proof fn lemma_no_commit<C>(events: Seq<CdcEvent<C>>)
    requires
        !has_commit(events),
    ensures
        last_commit(events).value == 0,
    decreases events.len(),
{
    if events.len() > 0 {
        let init = events.drop_last();
        assert(!(events[events.len() - 1] is Commit));
        if has_commit(init) {
            let i = choose|i: int| 0 <= i < init.len() && #[trigger] init[i] is Commit;
            assert(events[i] is Commit);
        }
        lemma_no_commit(init);
    }
}

/// Once there is a committed position, there is one after every batch: the sink can always
/// report it.
pub proof fn law_committed_position_stays(committed_lsn: Option<PgLsn>, last_commit: PgLsn)
    requires
        committed_lsn is Some,
    ensures
        committed_after(committed_lsn, last_commit) is Some,
{
}

/// The position that counts as announced is that of the last start of a transaction among the
/// changes; where there is no start among them, it is the one that was announced before.
pub proof fn law_announced<C>(final_lsn: Option<PgLsn>, events: Seq<CdcEvent<C>>, i: int)
    ensures
        0 <= i < events.len() && events[i] is Begin && (forall|j: int|
            i < j < events.len() ==> !(#[trigger] events[j] is Begin)) ==> announced(
            final_lsn,
            events,
        ) == Some(PgLsn { value: events[i]->final_lsn }),
        (forall|j: int| 0 <= j < events.len() ==> !(#[trigger] events[j] is Begin)) ==> announced(
            final_lsn,
            events,
        ) == final_lsn,
    decreases events.len(),
{
    if events.len() > 0 {
        let init = events.drop_last();
        let last = events.len() - 1;
        law_announced(final_lsn, init, i);
        assert(forall|j: int| 0 <= j < last ==> #[trigger] init[j] == events[j]);
        assert(events.last() == events[last]);
    }
}

/// The position of the last commit is that of the last commit among the changes, wherever it
/// stands, and zero where there is none.
pub proof fn law_last_commit<C>(events: Seq<CdcEvent<C>>, i: int)
    ensures
        0 <= i < events.len() && events[i] is Commit && (forall|j: int|
            i < j < events.len() ==> !(#[trigger] events[j] is Commit)) ==> last_commit(events) == (
        PgLsn { value: events[i]->commit_lsn }),
        !has_commit(events) ==> last_commit(events) == (PgLsn { value: 0 }),
    decreases events.len(),
{
    if !has_commit(events) {
        lemma_no_commit(events);
    }
    if events.len() > 0 {
        let init = events.drop_last();
        let last = events.len() - 1;
        law_last_commit(init, i);
        assert(forall|j: int| 0 <= j < last ==> #[trigger] init[j] == events[j]);
        assert(events.last() == events[last]);
    }
}

/// The inserted rows of two series of changes are those of the first, then those of the second;
/// an insert alone is one row with its cells, into whatever table, and any other change is none.
pub proof fn law_inserted_rows<C>(
    first: Seq<CdcEvent<C>>,
    second: Seq<CdcEvent<C>>,
    event: CdcEvent<C>,
)
    ensures
        inserted_rows(first + second) == inserted_rows(first) + inserted_rows(second),
        event matches CdcEvent::Insert((_, row)) ==> inserted_rows(seq![event]) == seq![
            row.values@,
        ],
        !(event is Insert) ==> inserted_rows(seq![event]) == Seq::<Seq<C>>::empty(),
    decreases second.len(),
{
    assert(seq![event].drop_last() == Seq::<CdcEvent<C>>::empty());
    assert(inserted_rows(seq![event].drop_last()) == Seq::<Seq<C>>::empty());
    if second.len() == 0 {
        assert(first + second == first);
    } else {
        law_inserted_rows(first, second.drop_last(), event);
        assert((first + second).drop_last() == first + second.drop_last());
        assert((first + second).last() == second.last());
    }
}

/// A commit is as announced exactly where its position is that of the last start of a
/// transaction before it, or, where there is none among the changes before it, the one that was
/// announced before them. Any other change is as announced.
pub proof fn law_commit_as_announced<C>(
    final_lsn: Option<PgLsn>,
    events: Seq<CdcEvent<C>>,
    n: int,
    i: int,
)
    requires
        0 <= n < events.len(),
    ensures
        !(events[n] is Commit) ==> commit_as_announced(final_lsn, events, n),
        events[n] is Commit && 0 <= i < n && events[i] is Begin && (forall|j: int|
            i < j < n ==> !(#[trigger] events[j] is Begin)) ==> (commit_as_announced(
            final_lsn,
            events,
            n,
        ) <==> events[n]->commit_lsn == events[i]->final_lsn),
        events[n] is Commit && (forall|j: int| 0 <= j < n ==> !(#[trigger] events[j] is Begin))
            ==> (commit_as_announced(final_lsn, events, n) <==> final_lsn == Some(
            PgLsn { value: events[n]->commit_lsn },
        )),
{
    let before = events.take(n);
    assert(forall|j: int| 0 <= j < n ==> #[trigger] before[j] == events[j]);
    law_announced(final_lsn, before, i);
}

/// What a single change comes to. The start of a transaction is remembered, and nothing else. A
/// commit is accepted at the announced position only, and keeps it announced. An insert gives
/// its row. Anything else gives nothing.
pub proof fn law_single_change<C>(final_lsn: Option<PgLsn>, event: CdcEvent<C>)
    ensures
        ({
            let read = batch_read(final_lsn, seq![event]);
            match event {
                CdcEvent::Begin { final_lsn: announced } => {
                    &&& read.error is None
                    &&& read.final_lsn == Some(PgLsn { value: announced })
                    &&& read.last_commit.value == 0
                    &&& read.rows.len() == 0
                },
                CdcEvent::Commit { commit_lsn } => {
                    &&& read.final_lsn == final_lsn
                    &&& read.rows.len() == 0
                    &&& read.error == match final_lsn {
                        None => Some(NotificationSinkError::CommitWithoutBegin),
                        Some(announced) => if announced.value == commit_lsn {
                            None
                        } else {
                            Some(
                                NotificationSinkError::IncorrectCommitLsn(
                                    PgLsn { value: commit_lsn },
                                    announced,
                                ),
                            )
                        },
                    }
                    &&& read.error is None ==> read.last_commit.value == commit_lsn
                },
                CdcEvent::Insert((_, row)) => {
                    &&& read.error is None
                    &&& read.final_lsn == final_lsn
                    &&& read.last_commit.value == 0
                    &&& read.rows == seq![row.values@]
                },
                CdcEvent::Other => {
                    &&& read.error is None
                    &&& read.final_lsn == final_lsn
                    &&& read.last_commit.value == 0
                    &&& read.rows.len() == 0
                },
            }
        }),
{
    assert(seq![event].drop_last() == Seq::<CdcEvent<C>>::empty());
    assert(seq![event].last() == event);
    assert(batch_read(final_lsn, seq![event].drop_last()).rows == Seq::<Seq<C>>::empty());
}

/// A batch without changes is accepted, and comes to nothing: what was announced stays.
pub proof fn law_empty_batch<C>(final_lsn: Option<PgLsn>)
    ensures
        ({
            let read = batch_read(final_lsn, Seq::<CdcEvent<C>>::empty());
            &&& read.error is None
            &&& read.final_lsn == final_lsn
            &&& read.last_commit.value == 0
            &&& read.rows.len() == 0
        }),
{
}

/// A batch that was refused is refused however it goes on, with the same error and the same
/// announced position.
pub proof fn law_refused_batch_stays_refused<C>(
    final_lsn: Option<PgLsn>,
    first: Seq<CdcEvent<C>>,
    second: Seq<CdcEvent<C>>,
)
    requires
        batch_read(final_lsn, first).error is Some,
    ensures
        batch_read(final_lsn, first + second) == batch_read(final_lsn, first),
{
    assert((first + second).take(first.len() as int) == first);
    lemma_batch_error_stays(final_lsn, first + second, first.len() as int);
}

/// The committed position moves to the last commit of a batch, forward or back, unless that is
/// zero, and then it is as it was.
pub proof fn law_committed_after(committed_lsn: Option<PgLsn>, last_commit: PgLsn)
    ensures
        last_commit.value != 0 ==> committed_after(committed_lsn, last_commit) == Some(last_commit),
        last_commit.value == 0 ==> committed_after(committed_lsn, last_commit) == committed_lsn,
{
}

/// The view of rows holds every row, with every cell.
pub proof fn law_rows_view<C>(rows: Seq<Vec<C>>, i: int)
    requires
        0 <= i < rows.len(),
    ensures
        rows_view(rows).len() == rows.len(),
        rows_view(rows)[i] == rows[i]@,
{
}

} // verus!
