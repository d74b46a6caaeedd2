//! A model of the canonical store, and what a run does to a store that
//! answers as the model does.
//!
//! `PersistRun::advance` returns what `RunView::step` says, and what a run
//! asks for is always what `RunView::pending` says of its state. So a run
//! whose commands are answered as `StoreModel::respond` says ends as `drive`
//! says, and leaves the store that `drive` says. `lemma_persist_outcome`
//! says what that is in terms of the visits alone, and the lemmas after it
//! draw the consequences.
//!
//! The model holds the three tables as maps: each URL has one row, each pair
//! of a page and an instant has one visit, each source file has one
//! watermark. It answers the commands of a run as the schema asks: a second
//! row for a URL or for a page and instant is refused as a violation of
//! uniqueness, and a rollback restores the tables as they were when the
//! transaction was opened.

use crate::database::{lemma_start_wf, lemma_step_wf, CommandView, Phase, RunView, StepView};
use crate::sql::{SqlCode, SqlErrorView, SqlReplyView};
use crate::types::{HistoryErrorView, HistoryVisit, VisitDetailView};
use vstd::prelude::*;

verus! {

/// The row of a page.
pub struct UrlRow {
    pub id: i64,
    pub title: Seq<char>,
}

/// The contents of the three tables.
pub struct Tables {
    /// The pages, by URL.
    pub urls: Map<Seq<char>, UrlRow>,
    /// The largest identifier that a page was ever given.
    pub last_id: int,
    /// The classification code of each visit, by page and instant.
    pub visits: Map<(i64, i64), i64>,
    /// The watermarks, by the path of the source file.
    pub watermarks: Map<Seq<char>, i64>,
}

/// The store: its tables, and the tables as they were when the open
/// transaction began, if one is open.
pub struct StoreModel {
    pub tables: Tables,
    pub saved: Option<Tables>,
}

/// The failure by which the store refuses a row that holds again what may
/// be held once.
pub open spec fn unique_failure() -> SqlErrorView {
    SqlErrorView { code: SqlCode::UniqueViolation, message: "UNIQUE constraint failed"@ }
}

/// The failure by which the store refuses a command that it cannot carry
/// out: no identifier is left, or no transaction is open, or one is.
pub open spec fn other_failure() -> SqlErrorView {
    SqlErrorView { code: SqlCode::Other, message: "statement failed"@ }
}

/// The key under which the store holds a visit.
pub open spec fn visit_key(visit: HistoryVisit) -> (i64, i64) {
    (visit.item_id, visit.visit_time)
}

impl Tables {
    /// The tables with a row for `url`, which they did not hold: the row
    /// gets the identifier after the largest one given so far.
    pub open spec fn add_url(self, url: Seq<char>, title: Seq<char>) -> Tables {
        Tables {
            urls: self.urls.insert(url, UrlRow { id: (self.last_id + 1) as i64, title }),
            last_id: self.last_id + 1,
            ..self
        }
    }

    /// The tables with `visit`, which they did not hold.
    pub open spec fn add_visit(self, visit: HistoryVisit) -> Tables {
        Tables { visits: self.visits.insert(visit_key(visit), visit.visit_type), ..self }
    }
}

impl StoreModel {
    /// The store after `command`, and its reply.
    pub open spec fn respond(self, command: CommandView) -> (StoreModel, SqlReplyView) {
        match command {
            CommandView::FindUrl { url } => if self.tables.urls.contains_key(url) {
                (self, Ok(Some(self.tables.urls[url].id)))
            } else {
                (self, Ok(None))
            },
            CommandView::AddUrl { url, title } => if self.tables.urls.contains_key(url) {
                (self, Err(unique_failure()))
            } else if self.tables.last_id >= i64::MAX {
                (self, Err(other_failure()))
            } else {
                (StoreModel { tables: self.tables.add_url(url, title), ..self }, Ok(None))
            },
            CommandView::Begin => if self.saved is Some {
                (self, Err(other_failure()))
            } else {
                (StoreModel { saved: Some(self.tables), ..self }, Ok(None))
            },
            CommandView::AddVisit { visit } => if self.tables.visits.contains_key(
                visit_key(visit),
            ) {
                (self, Err(unique_failure()))
            } else {
                (StoreModel { tables: self.tables.add_visit(visit), ..self }, Ok(None))
            },
            CommandView::SetWatermark { path, last_import } => (
                StoreModel {
                    tables: Tables {
                        watermarks: self.tables.watermarks.insert(path, last_import),
                        ..self.tables
                    },
                    ..self
                },
                Ok(None),
            ),
            CommandView::Commit => if self.saved is Some {
                (StoreModel { saved: None, ..self }, Ok(None))
            } else {
                (self, Err(other_failure()))
            },
            CommandView::Rollback => match self.saved {
                Some(before) => (StoreModel { tables: before, saved: None }, Ok(None)),
                None => (self, Err(other_failure())),
            },
        }
    }
}

/// A bound on the number of commands that a run still has to give.
pub open spec fn fuel(run: RunView) -> nat {
    match run.phase {
        Phase::Finished => 0,
        Phase::RollingBack => 1,
        _ => {
            let waiting: nat = match run.phase {
                Phase::FindingUrl => 2,
                Phase::AddingUrl => 1,
                Phase::ConfirmingUrl => 0,
                Phase::Beginning => 3,
                Phase::AddingVisit => 2,
                Phase::Marking => 1,
                _ => 0,
            };
            let closing: nat = if run.batch.len() > 0 {
                3
            } else {
                0
            };
            (2 + 10 * (run.visits.len() - run.resolved) + (run.batch.len() - run.cursor) + closing
                + waiting) as nat
        },
    }
}

/// Each reply brings a run nearer to its end.
pub proof fn lemma_step_burns_fuel(run: RunView, reply: SqlReplyView)
    requires
        run.wf(),
        !(run.phase is Finished),
    ensures
        fuel(run.step(reply).0) < fuel(run),
{
}

/// How a run ends, and the store it leaves, where the store answers each
/// command as the model does.
pub open spec fn drive(run: RunView, store: StoreModel) -> (
    StoreModel,
    Result<(nat, nat), HistoryErrorView>,
)
    decreases fuel(run),
    when run.wf()
    via drive_ends
{
    match run.pending() {
        StepView::Done(result) => (store, result),
        StepView::Run(command) => {
            let (next_store, reply) = store.respond(command);
            drive(run.step(reply).0, next_store)
        },
    }
}

#[via_fn]
proof fn drive_ends(run: RunView, store: StoreModel) {
    if let StepView::Run(command) = run.pending() {
        lemma_step_burns_fuel(run, store.respond(command).1);
    }
}


impl Tables {
    /// The tables with a row for the page of `visit`: unchanged where they
    /// hold one, so that the title seen first stays.
    pub open spec fn intern(self, visit: VisitDetailView) -> Tables {
        if self.urls.contains_key(visit.url) {
            self
        } else {
            self.add_url(visit.url, visit.title)
        }
    }

    /// The tables with a row for the page of each of `visits`, the pages
    /// taken in the order of the visits.
    pub open spec fn intern_all(self, visits: Seq<VisitDetailView>) -> Tables
        decreases visits.len(),
    {
        if visits.len() == 0 {
            self
        } else {
            self.intern(visits[0]).intern_all(visits.drop_first())
        }
    }

    /// The row that stands for `visit`, whose page the tables hold.
    pub open spec fn row_for(self, visit: VisitDetailView) -> HistoryVisit {
        HistoryVisit {
            item_id: self.urls[visit.url].id,
            visit_time: visit.visit_time,
            visit_type: visit.visit_type,
        }
    }

    /// The rows that stand for `visits`, in the same order.
    pub open spec fn rows_for(self, visits: Seq<VisitDetailView>) -> Seq<HistoryVisit> {
        Seq::new(visits.len(), |i: int| self.row_for(visits[i]))
    }
}

/// The visits `held` with `row`: unchanged where its page and instant are
/// held already.
pub open spec fn write(held: Map<(i64, i64), i64>, row: HistoryVisit) -> Map<(i64, i64), i64> {
    if held.contains_key(visit_key(row)) {
        held
    } else {
        held.insert(visit_key(row), row.visit_type)
    }
}

/// The visits `held` with each of `rows`, taken in order.
pub open spec fn write_all(held: Map<(i64, i64), i64>, rows: Seq<HistoryVisit>) -> Map<
    (i64, i64),
    i64,
>
    decreases rows.len(),
{
    if rows.len() == 0 {
        held
    } else {
        write_all(write(held, rows[0]), rows.drop_first())
    }
}

/// How many of `rows`, taken in order, bring a page and instant that is not
/// held yet.
pub open spec fn count_new(held: Map<(i64, i64), i64>, rows: Seq<HistoryVisit>) -> nat
    decreases rows.len(),
{
    if rows.len() == 0 {
        0
    } else {
        let first: nat = if held.contains_key(visit_key(rows[0])) {
            0
        } else {
            1
        };
        first + count_new(write(held, rows[0]), rows.drop_first())
    }
}

/// No more rows are new than there are rows.
pub proof fn lemma_count_new_bound(held: Map<(i64, i64), i64>, rows: Seq<HistoryVisit>)
    ensures
        count_new(held, rows) <= rows.len(),
    decreases rows.len(),
{
    if rows.len() > 0 {
        lemma_count_new_bound(write(held, rows[0]), rows.drop_first());
    }
}

/// Writing two runs of rows one after the other is writing them all.
pub proof fn lemma_write_all_add(
    held: Map<(i64, i64), i64>,
    first: Seq<HistoryVisit>,
    second: Seq<HistoryVisit>,
)
    ensures
        write_all(held, first + second) == write_all(write_all(held, first), second),
        count_new(held, first + second) == count_new(held, first) + count_new(
            write_all(held, first),
            second,
        ),
    decreases first.len(),
{
    if first.len() == 0 {
        assert(first + second =~= second);
    } else {
        assert((first + second)[0] == first[0]);
        assert((first + second).drop_first() =~= first.drop_first() + second);
        lemma_write_all_add(write(held, first[0]), first.drop_first(), second);
    }
}

/// The state in which a run goes on once the rows of its batch from
/// `from` on have been written to a store that held the visits `held`, and
/// the transaction has been committed.
pub open spec fn run_after_batch(run: RunView, held: Map<(i64, i64), i64>, from: int) -> RunView {
    let rows = run.batch.subrange(from, run.batch.len() as int);
    let stored = count_new(held, rows);
    (RunView {
        affected: run.affected + stored,
        duplicated: (run.duplicated + rows.len() - stored) as nat,
        cursor: run.batch.len(),
        phase: Phase::Committing,
        ..run
    }).close_batch().0
}

/// The store once the rows of the run's batch from `from` on have been
/// written to it and the transaction has been committed.
pub open spec fn store_after_batch(run: RunView, store: StoreModel, from: int) -> StoreModel {
    let rows = run.batch.subrange(from, run.batch.len() as int);
    StoreModel {
        tables: Tables {
            visits: write_all(store.tables.visits, rows),
            watermarks: store.tables.watermarks.insert(
                run.src_path,
                run.batch.last().visit_time,
            ),
            ..store.tables
        },
        saved: None,
    }
}

/// From the addition of the visit under the cursor to the commit: the rest
/// of the batch is written, each row that the store holds already is
/// counted as a duplicate, the watermark is set, and the run goes on.
pub proof fn lemma_write_batch(run: RunView, store: StoreModel)
    requires
        run.wf(),
        run.phase is AddingVisit,
        store.saved is Some,
    ensures
        drive(run, store) == drive(
            run_after_batch(run, store.tables.visits, run.cursor as int),
            store_after_batch(run, store, run.cursor as int),
        ),
        run_after_batch(run, store.tables.visits, run.cursor as int).wf(),
    decreases run.batch.len() - run.cursor,
{
    let k = run.cursor as int;
    let len = run.batch.len() as int;
    let rows = run.batch.subrange(k, len);
    let held = store.tables.visits;
    let command = CommandView::AddVisit { visit: run.batch[k] };
    assert(run.pending() == StepView::Run(command));
    let (store1, reply) = store.respond(command);
    let run1 = run.step(reply).0;
    lemma_step_wf(run, reply);
    assert(drive(run, store) == drive(run1, store1));
    assert(rows[0] == run.batch[k]);
    assert(rows.drop_first() =~= run.batch.subrange(k + 1, len));
    assert(store1.tables.visits == write(held, rows[0]));
    lemma_count_new_bound(write(held, rows[0]), rows.drop_first());
    if k + 1 < len {
        lemma_write_batch(run1, store1);
        assert(run_after_batch(run1, store1.tables.visits, k + 1) == run_after_batch(
            run,
            held,
            k,
        ));
        assert(store_after_batch(run1, store1, k + 1) == store_after_batch(run, store, k));
    } else {
        assert(run1.phase is Marking);
        let mark = CommandView::SetWatermark {
            path: run.src_path,
            last_import: run.batch.last().visit_time,
        };
        assert(run1.pending() == StepView::Run(mark));
        let (store2, reply2) = store1.respond(mark);
        let run2 = run1.step(reply2).0;
        lemma_step_wf(run1, reply2);
        assert(drive(run1, store1) == drive(run2, store2));
        assert(run2.phase is Committing);
        assert(run2.pending() == StepView::Run(CommandView::Commit));
        let (store3, reply3) = store2.respond(CommandView::Commit);
        let run3 = run2.step(reply3).0;
        lemma_step_wf(run2, reply3);
        assert(drive(run2, store2) == drive(run3, store3));
        assert(rows.drop_first().len() == 0);
        assert(run3 == run_after_batch(run, held, k));
        assert(store3 == store_after_batch(run, store, k));
    }
}


/// From the opening of the transaction to the commit: the batch is written
/// and the run goes on.
pub proof fn lemma_flush_batch(run: RunView, store: StoreModel)
    requires
        run.wf(),
        run.phase is Beginning,
        store.saved is None,
    ensures
        drive(run, store) == drive(
            run_after_batch(run, store.tables.visits, 0),
            store_after_batch(run, store, 0),
        ),
        run_after_batch(run, store.tables.visits, 0).wf(),
{
    assert(run.pending() == StepView::Run(CommandView::Begin));
    let (store1, reply) = store.respond(CommandView::Begin);
    let run1 = run.step(reply).0;
    lemma_step_wf(run, reply);
    assert(drive(run, store) == drive(run1, store1));
    lemma_write_batch(run1, store1);
    assert(run_after_batch(run1, store1.tables.visits, 0) == run_after_batch(
        run,
        store.tables.visits,
        0,
    ));
    assert(store_after_batch(run1, store1, 0) == store_after_batch(run, store, 0));
}

/// From the look-up of the next visit's URL to the visit's place in the
/// batch: the page gets a row where it had none, and the visit takes the
/// row's identifier. Where the page has no row and no identifier is left,
/// the run fails.
pub proof fn lemma_resolve_url(run: RunView, store: StoreModel)
    requires
        run.wf(),
        run.phase is FindingUrl,
    ensures
        ({
            let tables = store.tables.intern(run.current());
            let next = run.push_visit(tables.urls[run.current().url].id).0;
            if store.tables.urls.contains_key(run.current().url) || store.tables.last_id
                < i64::MAX {
                &&& drive(run, store) == drive(next, StoreModel { tables, ..store })
                &&& next.wf()
                &&& next.phase is FindingUrl || next.phase is Beginning
            } else {
                drive(run, store).1 is Err
            }
        }),
{
    let url = run.current().url;
    let find = CommandView::FindUrl { url };
    assert(run.pending() == StepView::Run(find));
    let (store1, reply1) = store.respond(find);
    let run1 = run.step(reply1).0;
    lemma_step_wf(run, reply1);
    assert(drive(run, store) == drive(run1, store1));
    if !store.tables.urls.contains_key(url) {
        let add = CommandView::AddUrl { url, title: run.current().title };
        assert(run1.pending() == StepView::Run(add));
        let (store2, reply2) = store1.respond(add);
        let run2 = run1.step(reply2).0;
        lemma_step_wf(run1, reply2);
        assert(drive(run1, store1) == drive(run2, store2));
        if store.tables.last_id < i64::MAX {
            assert(run2.pending() == StepView::Run(find));
            let (store3, reply3) = store2.respond(find);
            let run3 = run2.step(reply3).0;
            lemma_step_wf(run2, reply3);
            assert(drive(run2, store2) == drive(run3, store3));
        } else {
            assert(run2.phase is Finished);
            assert(drive(run2, store2).1 is Err);
        }
    }
}

/// The visits of a run whose pages are not resolved yet.
pub open spec fn visits_left(run: RunView) -> Seq<VisitDetailView> {
    run.visits.subrange(run.resolved as int, run.visits.len() as int)
}

/// The rows that a run has yet to write to the store: its batch, and the
/// rows of the visits that are left.
pub open spec fn rows_left(run: RunView, store: StoreModel) -> Seq<HistoryVisit> {
    run.batch + store.tables.intern_all(visits_left(run)).rows_for(visits_left(run))
}

/// The store that a run leaves behind where it ends well, and what it
/// returns: the pages of the visits that are left have their rows, the rows
/// that are left are written, and the watermark is the instant of the last
/// row.
pub open spec fn end_from(run: RunView, store: StoreModel) -> (
    StoreModel,
    Result<(nat, nat), HistoryErrorView>,
) {
    let pages = store.tables.intern_all(visits_left(run));
    let rows = rows_left(run, store);
    let stored = count_new(store.tables.visits, rows);
    (
        StoreModel {
            tables: Tables {
                urls: pages.urls,
                last_id: pages.last_id,
                visits: write_all(store.tables.visits, rows),
                watermarks: store.tables.watermarks.insert(run.src_path, rows.last().visit_time),
            },
            saved: None,
        },
        Ok((run.affected + stored, (run.duplicated + rows.len() - stored) as nat)),
    )
}

/// What a run leaves behind and returns, from a state in which it is about
/// to look up a URL or to open a transaction. The run ends well if and only
/// if the identifiers suffice for the pages that have no row yet.
pub proof fn lemma_drive_from(run: RunView, store: StoreModel)
    requires
        run.wf(),
        run.phase is FindingUrl || run.phase is Beginning,
        store.saved is None,
    ensures
        store.tables.last_id <= i64::MAX ==> (drive(run, store).1 is Ok
            <==> store.tables.intern_all(visits_left(run)).last_id <= i64::MAX),
        drive(run, store).1 is Ok ==> drive(run, store) == end_from(run, store),
    decreases fuel(run),
{
    let left = visits_left(run);
    let pages = store.tables.intern_all(left);
    let rows = rows_left(run, store);
    let held = store.tables.visits;
    if run.phase is Beginning {
        lemma_flush_batch(run, store);
        let run1 = run_after_batch(run, held, 0);
        let store1 = store_after_batch(run, store, 0);
        assert(run.batch.subrange(0, run.batch.len() as int) =~= run.batch);
        lemma_count_new_bound(held, run.batch);
        if run1.phase is Finished {
            assert(left.len() == 0);
            assert(rows =~= run.batch);
            assert(run1.pending() == StepView::Done(run1.outcome()));
            assert(drive(run1, store1) == (store1, run1.outcome()));
            assert(pages == store.tables);
            assert(drive(run, store) == end_from(run, store));
        } else {
            lemma_drive_from(run1, store1);
            assert(visits_left(run1) == left);
            lemma_intern_all_fields(store.tables, store1.tables, left);
            let rest = pages.rows_for(left);
            assert(store1.tables.intern_all(left).rows_for(left) =~= rest);
            lemma_write_all_add(held, run.batch, rest);
            assert(Seq::<HistoryVisit>::empty() + rest =~= rest);
            assert(rows_left(run1, store1) == rest);
            assert(rest.len() > 0);
            assert(rows.last() == rest.last());
            assert(store1.tables.watermarks.insert(run.src_path, rest.last().visit_time)
                =~= store.tables.watermarks.insert(run.src_path, rows.last().visit_time));
            if drive(run, store).1 is Ok {
                assert(end_from(run1, store1) == end_from(run, store));
            }
        }
    } else {
        lemma_resolve_url(run, store);
        let url = run.current().url;
        if store.tables.urls.contains_key(url) || store.tables.last_id < i64::MAX {
            let tables = store.tables.intern(run.current());
            let run1 = run.push_visit(tables.urls[url].id).0;
            let store1 = StoreModel { tables, ..store };
            lemma_drive_from(run1, store1);
            let left1 = visits_left(run1);
            assert(left[0] == run.current());
            assert(left.drop_first() =~= left1);
            assert(tables.intern_all(left1) == pages);
            lemma_intern_all_keeps(tables, left1, url);
            assert(pages.rows_for(left)[0] == run1.batch.last());
            assert(run1.batch + pages.rows_for(left1) =~= rows);
            if drive(run, store).1 is Ok {
                assert(end_from(run1, store1) == end_from(run, store));
            }
        } else {
            let full = store.tables.intern(run.current());
            assert(left[0] == run.current());
            lemma_intern_all_grows(full, left.drop_first());
        }
    }
}

/// The largest identifier given never gets smaller.
pub proof fn lemma_intern_all_grows(tables: Tables, visits: Seq<VisitDetailView>)
    ensures
        tables.intern_all(visits).last_id >= tables.last_id,
    decreases visits.len(),
{
    if visits.len() > 0 {
        lemma_intern_all_grows(tables.intern(visits[0]), visits.drop_first());
    }
}

/// Which pages get rows, and which rows, depends on the pages held and on
/// the identifiers given so far alone.
pub proof fn lemma_intern_all_fields(a: Tables, b: Tables, visits: Seq<VisitDetailView>)
    requires
        a.urls == b.urls,
        a.last_id == b.last_id,
    ensures
        a.intern_all(visits).urls == b.intern_all(visits).urls,
        a.intern_all(visits).last_id == b.intern_all(visits).last_id,
        a.intern_all(visits).visits == a.visits,
        a.intern_all(visits).watermarks == a.watermarks,
    decreases visits.len(),
{
    if visits.len() > 0 {
        lemma_intern_all_fields(a.intern(visits[0]), b.intern(visits[0]), visits.drop_first());
    }
}

/// A row that the tables hold stays as it is while further pages get their
/// rows.
pub proof fn lemma_intern_all_keeps(tables: Tables, visits: Seq<VisitDetailView>, url: Seq<char>)
    requires
        tables.urls.contains_key(url),
    ensures
        tables.intern_all(visits).urls.contains_key(url),
        tables.intern_all(visits).urls[url] == tables.urls[url],
        tables.intern_all(visits).visits == tables.visits,
        tables.intern_all(visits).watermarks == tables.watermarks,
    decreases visits.len(),
{
    if visits.len() > 0 {
        lemma_intern_all_keeps(tables.intern(visits[0]), visits.drop_first(), url);
    }
}


impl Tables {
    /// The tables after `visits`, read from the source file `src_path`, have
    /// been merged into them: each page has its row, each visit whose page
    /// and instant were not held is held, and the watermark of the source is
    /// the instant of the last visit. Without visits nothing changes.
    pub open spec fn persisted(self, src_path: Seq<char>, visits: Seq<VisitDetailView>) -> Tables {
        if visits.len() == 0 {
            self
        } else {
            let pages = self.intern_all(visits);
            Tables {
                urls: pages.urls,
                last_id: pages.last_id,
                visits: write_all(self.visits, pages.rows_for(visits)),
                watermarks: self.watermarks.insert(src_path, visits.last().visit_time),
            }
        }
    }

    /// Whether an identifier is left for each page of `visits` that has no
    /// row yet.
    pub open spec fn identifiers_suffice(self, visits: Seq<VisitDetailView>) -> bool {
        self.intern_all(visits).last_id <= i64::MAX
    }

    /// The tables are such as the store can hold: each page has an
    /// identifier of its own, and none is larger than the largest one given.
    pub open spec fn wf(self) -> bool {
        &&& 0 <= self.last_id <= i64::MAX
        &&& forall|url: Seq<char>|
            self.urls.contains_key(url) ==> 1 <= (#[trigger] self.urls[url]).id <= self.last_id
        &&& forall|a: Seq<char>, b: Seq<char>|
            self.urls.contains_key(a) && self.urls.contains_key(b) && (#[trigger] self.urls[a]).id
                == (#[trigger] self.urls[b]).id ==> a == b
    }

    /// How many of `visits` the merge stores; the others are duplicates.
    pub open spec fn newly_stored(self, visits: Seq<VisitDetailView>) -> nat {
        count_new(self.visits, self.intern_all(visits).rows_for(visits))
    }
}

/// What a whole run does to a store that answers as the model does and has
/// no transaction open. The run ends well if and only if the identifiers
/// suffice for the pages that have no row yet. Where it ends well, the store
/// holds the merged tables, whatever the size of the batches, and the run
/// returns the number of visits stored and the number of duplicates, which
/// add up to the number of visits.
pub proof fn lemma_persist_outcome(
    src_path: Seq<char>,
    visits: Seq<VisitDetailView>,
    batch_size: nat,
    store: StoreModel,
)
    requires
        batch_size > 0,
        store.saved is None,
    ensures
        ({
            let run = RunView::start(src_path, visits, batch_size).0;
            let stored = store.tables.newly_stored(visits);
            &&& run.wf()
            &&& store.tables.last_id <= i64::MAX ==> (drive(run, store).1 is Ok
                <==> store.tables.identifiers_suffice(visits))
            &&& drive(run, store).1 is Ok ==> {
                &&& drive(run, store).0 == StoreModel {
                    tables: store.tables.persisted(src_path, visits),
                    saved: None,
                }
                &&& drive(run, store).1 == Ok::<(nat, nat), HistoryErrorView>(
                    (stored, (visits.len() - stored) as nat),
                )
                &&& stored <= visits.len()
            }
        }),
{
    let run = RunView::start(src_path, visits, batch_size).0;
    lemma_start_wf(src_path, visits, batch_size);
    if visits.len() == 0 {
        assert(run.pending() == StepView::Done(run.outcome()));
        assert(drive(run, store) == (store, run.outcome()));
        assert(store.tables.intern_all(visits).rows_for(visits).len() == 0);
    } else {
        lemma_drive_from(run, store);
        assert(visits_left(run) =~= visits);
        let rows = store.tables.intern_all(visits).rows_for(visits);
        assert(rows_left(run, store) =~= rows);
        lemma_count_new_bound(store.tables.visits, rows);
        lemma_intern_all_fields(store.tables, store.tables, visits);
    }
}

/// The size of the batches is immaterial to a run that ends well: it
/// decides neither whether the run ends well, nor what the run leaves in the
/// store, nor what it returns.
pub proof fn lemma_batch_size_is_immaterial(
    src_path: Seq<char>,
    visits: Seq<VisitDetailView>,
    one: nat,
    other: nat,
    store: StoreModel,
)
    requires
        one > 0,
        other > 0,
        store.saved is None,
        store.tables.last_id <= i64::MAX,
    ensures
        ({
            let first = drive(RunView::start(src_path, visits, one).0, store);
            let second = drive(RunView::start(src_path, visits, other).0, store);
            &&& first.1 is Ok <==> second.1 is Ok
            &&& first.1 is Ok ==> first == second
        }),
{
    lemma_persist_outcome(src_path, visits, one, store);
    lemma_persist_outcome(src_path, visits, other, store);
}

/// After the pages of `visits` got their rows, each of them has one.
pub proof fn lemma_intern_all_holds(tables: Tables, visits: Seq<VisitDetailView>, i: int)
    requires
        0 <= i < visits.len(),
    ensures
        tables.intern_all(visits).urls.contains_key(visits[i].url),
    decreases visits.len(),
{
    if i == 0 {
        lemma_intern_all_keeps(tables.intern(visits[0]), visits.drop_first(), visits[0].url);
    } else {
        lemma_intern_all_holds(tables.intern(visits[0]), visits.drop_first(), i - 1);
    }
}

/// Where each page has its row already, no row is added.
pub proof fn lemma_intern_all_again(tables: Tables, visits: Seq<VisitDetailView>)
    requires
        forall|i: int| 0 <= i < visits.len() ==> tables.urls.contains_key(#[trigger] visits[i].url),
    ensures
        tables.intern_all(visits) == tables,
    decreases visits.len(),
{
    if visits.len() > 0 {
        assert(tables.urls.contains_key(visits[0].url));
        assert forall|i: int| 0 <= i < visits.drop_first().len() implies tables.urls.contains_key(
            #[trigger] visits.drop_first()[i].url,
        ) by {
            assert(visits.drop_first()[i] == visits[i + 1]);
        }
        lemma_intern_all_again(tables, visits.drop_first());
    }
}

/// A visit that is held stays as it is while further rows are written.
pub proof fn lemma_write_all_keeps(
    held: Map<(i64, i64), i64>,
    rows: Seq<HistoryVisit>,
    key: (i64, i64),
)
    requires
        held.contains_key(key),
    ensures
        write_all(held, rows).contains_key(key),
        write_all(held, rows)[key] == held[key],
    decreases rows.len(),
{
    if rows.len() > 0 {
        lemma_write_all_keeps(write(held, rows[0]), rows.drop_first(), key);
    }
}

/// After `rows` were written, the page and instant of each of them is held.
/// The code held with them is the one that was held before, or else the
/// code of the first of the rows with that page and instant.
pub proof fn lemma_write_all_holds(held: Map<(i64, i64), i64>, rows: Seq<HistoryVisit>, i: int)
    requires
        0 <= i < rows.len(),
    ensures
        ({
            let key = visit_key(rows[i]);
            let after = write_all(held, rows);
            &&& after.contains_key(key)
            &&& held.contains_key(key) ==> after[key] == held[key]
            &&& !held.contains_key(key) && (forall|k: int|
                0 <= k < i ==> visit_key(#[trigger] rows[k]) != key) ==> after[key]
                == rows[i].visit_type
        }),
    decreases rows.len(),
{
    let key = visit_key(rows[i]);
    let rest = rows.drop_first();
    if i == 0 {
        lemma_write_all_keeps(write(held, rows[0]), rest, key);
    } else {
        assert(rest[i - 1] == rows[i]);
        lemma_write_all_holds(write(held, rows[0]), rest, i - 1);
        if held.contains_key(key) {
        } else if forall|k: int| 0 <= k < i ==> visit_key(#[trigger] rows[k]) != key {
            assert(visit_key(rows[0]) != key);
            assert forall|k: int| 0 <= k < i - 1 implies visit_key(#[trigger] rest[k]) != key by {
                assert(rest[k] == rows[k + 1]);
            }
        }
    }
}

/// Where the page and instant of each row is held already, nothing is
/// written and no row is new.
pub proof fn lemma_write_all_again(held: Map<(i64, i64), i64>, rows: Seq<HistoryVisit>)
    requires
        forall|i: int| 0 <= i < rows.len() ==> held.contains_key(visit_key(#[trigger] rows[i])),
    ensures
        write_all(held, rows) == held,
        count_new(held, rows) == 0,
    decreases rows.len(),
{
    if rows.len() > 0 {
        assert(held.contains_key(visit_key(rows[0])));
        assert forall|i: int| 0 <= i < rows.drop_first().len() implies held.contains_key(
            visit_key(#[trigger] rows.drop_first()[i]),
        ) by {
            assert(rows.drop_first()[i] == rows[i + 1]);
        }
        lemma_write_all_again(held, rows.drop_first());
    }
}

/// A row whose page and instant is held already is not new.
pub proof fn lemma_count_new_skips(held: Map<(i64, i64), i64>, rows: Seq<HistoryVisit>, j: int)
    requires
        0 <= j < rows.len(),
        held.contains_key(visit_key(rows[j])),
    ensures
        count_new(held, rows) < rows.len(),
    decreases rows.len(),
{
    let rest = rows.drop_first();
    if j == 0 {
        lemma_count_new_bound(write(held, rows[0]), rest);
    } else {
        assert(rest[j - 1] == rows[j]);
        lemma_count_new_skips(write(held, rows[0]), rest, j - 1);
    }
}

/// Of two rows with the same page and instant at most one is new.
pub proof fn lemma_count_new_collapses(
    held: Map<(i64, i64), i64>,
    rows: Seq<HistoryVisit>,
    i: int,
    j: int,
)
    requires
        0 <= i < j < rows.len(),
        visit_key(rows[i]) == visit_key(rows[j]),
    ensures
        count_new(held, rows) < rows.len(),
    decreases rows.len(),
{
    let rest = rows.drop_first();
    assert(rest[j - 1] == rows[j]);
    if i == 0 {
        lemma_count_new_skips(write(held, rows[0]), rest, j - 1);
    } else {
        assert(rest[i - 1] == rows[i]);
        lemma_count_new_collapses(write(held, rows[0]), rest, i - 1, j - 1);
    }
}

/// Merging the same visits a second time changes nothing: no page gets a
/// row, no visit is stored, every visit is a duplicate, and the watermark
/// stays.
pub proof fn lemma_persist_again(tables: Tables, src_path: Seq<char>, visits: Seq<VisitDetailView>)
    ensures
        ({
            let once = tables.persisted(src_path, visits);
            &&& once.persisted(src_path, visits) == once
            &&& once.newly_stored(visits) == 0
        }),
{
    let once = tables.persisted(src_path, visits);
    if visits.len() > 0 {
        let pages = tables.intern_all(visits);
        let rows = pages.rows_for(visits);
        assert forall|i: int| 0 <= i < visits.len() implies once.urls.contains_key(
            #[trigger] visits[i].url,
        ) by {
            lemma_intern_all_holds(tables, visits, i);
        }
        lemma_intern_all_again(once, visits);
        assert(once.rows_for(visits) =~= rows);
        assert forall|i: int| 0 <= i < rows.len() implies once.visits.contains_key(
            visit_key(#[trigger] rows[i]),
        ) by {
            lemma_write_all_holds(tables.visits, rows, i);
        }
        lemma_write_all_again(once.visits, rows);
        assert(once.watermarks.insert(src_path, visits.last().visit_time) =~= once.watermarks);
    }
}

/// A run that merges again what a run has merged stores nothing: it ends
/// well, counts every visit as a duplicate, and leaves the store as it was.
pub proof fn lemma_second_run_stores_nothing(
    src_path: Seq<char>,
    visits: Seq<VisitDetailView>,
    batch_size: nat,
    store: StoreModel,
)
    requires
        batch_size > 0,
        store.saved is None,
        store.tables.wf(),
        drive(RunView::start(src_path, visits, batch_size).0, store).1 is Ok,
    ensures
        ({
            let run = RunView::start(src_path, visits, batch_size).0;
            let first = drive(run, store);
            let second = drive(run, first.0);
            &&& second.0 == first.0
            &&& second.1 == Ok::<(nat, nat), HistoryErrorView>((0, visits.len()))
        }),
{
    let run = RunView::start(src_path, visits, batch_size).0;
    let first = drive(run, store);
    lemma_persist_outcome(src_path, visits, batch_size, store);
    lemma_persist_again(store.tables, src_path, visits);
    lemma_persisted_wf(store.tables, src_path, visits);
    lemma_persist_outcome(src_path, visits, batch_size, first.0);
    let once = store.tables.persisted(src_path, visits);
    if visits.len() > 0 {
        assert forall|i: int| 0 <= i < visits.len() implies once.urls.contains_key(
            #[trigger] visits[i].url,
        ) by {
            lemma_intern_all_holds(store.tables, visits, i);
        }
        lemma_intern_all_again(once, visits);
    }
}

/// A page has one row, and the row keeps the title under which the page was
/// seen first: the row that the tables held stays as it is, and a page that
/// they did not hold gets the title of the first visit that names it.
pub proof fn lemma_first_title_stays(
    tables: Tables,
    src_path: Seq<char>,
    visits: Seq<VisitDetailView>,
    i: int,
)
    requires
        0 <= i < visits.len(),
    ensures
        ({
            let url = visits[i].url;
            let after = tables.persisted(src_path, visits);
            &&& after.urls.contains_key(url)
            &&& tables.urls.contains_key(url) ==> after.urls[url] == tables.urls[url]
            &&& !tables.urls.contains_key(url) && (forall|k: int|
                0 <= k < i ==> (#[trigger] visits[k]).url != url) ==> after.urls[url].title
                == visits[i].title
        }),
{
    lemma_intern_all_first(tables, visits, i);
}

/// The row of a page after the pages of `visits` got their rows.
pub proof fn lemma_intern_all_first(tables: Tables, visits: Seq<VisitDetailView>, i: int)
    requires
        0 <= i < visits.len(),
    ensures
        ({
            let url = visits[i].url;
            let after = tables.intern_all(visits);
            &&& after.urls.contains_key(url)
            &&& tables.urls.contains_key(url) ==> after.urls[url] == tables.urls[url]
            &&& !tables.urls.contains_key(url) && (forall|k: int|
                0 <= k < i ==> (#[trigger] visits[k]).url != url) ==> after.urls[url].title
                == visits[i].title
        }),
    decreases visits.len(),
{
    let url = visits[i].url;
    let rest = visits.drop_first();
    if i == 0 {
        lemma_intern_all_keeps(tables.intern(visits[0]), rest, url);
    } else {
        assert(rest[i - 1] == visits[i]);
        lemma_intern_all_first(tables.intern(visits[0]), rest, i - 1);
        if tables.urls.contains_key(url) {
        } else if forall|k: int| 0 <= k < i ==> (#[trigger] visits[k]).url != url {
            assert(visits[0].url != url);
            assert forall|k: int| 0 <= k < i - 1 implies (#[trigger] rest[k]).url != url by {
                assert(rest[k] == visits[k + 1]);
            }
        }
    }
}

/// While the identifiers suffice, each page keeps an identifier of its own.
pub proof fn lemma_intern_all_wf(tables: Tables, visits: Seq<VisitDetailView>)
    requires
        tables.wf(),
        tables.identifiers_suffice(visits),
    ensures
        tables.intern_all(visits).wf(),
    decreases visits.len(),
{
    if visits.len() > 0 {
        let next = tables.intern(visits[0]);
        lemma_intern_all_grows(next, visits.drop_first());
        lemma_intern_all_wf(next, visits.drop_first());
    }
}

/// A merge that ends well leaves tables such as the store can hold.
pub proof fn lemma_persisted_wf(tables: Tables, src_path: Seq<char>, visits: Seq<VisitDetailView>)
    requires
        tables.wf(),
        tables.identifiers_suffice(visits),
    ensures
        tables.persisted(src_path, visits).wf(),
{
    lemma_intern_all_wf(tables, visits);
}

/// Two visits to the same URL at the same instant are one visit to the
/// store, whatever their codes: at most one of them is stored, and the code
/// held is the one that was held before, or else the code of the first
/// visit to that URL at that instant.
pub proof fn lemma_same_instant_collapses(
    tables: Tables,
    src_path: Seq<char>,
    visits: Seq<VisitDetailView>,
    i: int,
    j: int,
)
    requires
        tables.wf(),
        tables.identifiers_suffice(visits),
        0 <= i < j < visits.len(),
        visits[i].url == visits[j].url,
        visits[i].visit_time == visits[j].visit_time,
    ensures
        ({
            let after = tables.persisted(src_path, visits);
            let key = (after.urls[visits[i].url].id, visits[i].visit_time);
            &&& tables.newly_stored(visits) < visits.len()
            &&& after.visits.contains_key(key)
            &&& tables.visits.contains_key(key) ==> after.visits[key] == tables.visits[key]
            &&& !tables.visits.contains_key(key) && (forall|k: int|
                0 <= k < i ==> !((#[trigger] visits[k]).url == visits[i].url && visits[k].visit_time
                    == visits[i].visit_time)) ==> after.visits[key] == visits[i].visit_type
        }),
{
    let pages = tables.intern_all(visits);
    let rows = pages.rows_for(visits);
    let after = tables.persisted(src_path, visits);
    let key = (after.urls[visits[i].url].id, visits[i].visit_time);
    assert(visit_key(rows[i]) == key);
    assert(visit_key(rows[j]) == key);
    lemma_count_new_collapses(tables.visits, rows, i, j);
    lemma_write_all_holds(tables.visits, rows, i);
    lemma_intern_all_wf(tables, visits);
    if !tables.visits.contains_key(key) && (forall|k: int|
        0 <= k < i ==> !((#[trigger] visits[k]).url == visits[i].url && visits[k].visit_time
            == visits[i].visit_time)) {
        assert forall|k: int| 0 <= k < i implies visit_key(#[trigger] rows[k]) != key by {
            lemma_intern_all_holds(tables, visits, k);
            lemma_intern_all_holds(tables, visits, i);
            assert(rows[k] == pages.row_for(visits[k]));
            if visits[k].url != visits[i].url {
                assert(pages.urls[visits[k].url].id != pages.urls[visits[i].url].id);
            }
        }
    }
}


/// What of the store outlasts a rollback: the tables as they were when the
/// open transaction began, or the tables themselves where none is open.
pub open spec fn settled(store: StoreModel) -> Tables {
    match store.saved {
        Some(before) => before,
        None => store.tables,
    }
}

/// Whether the store has a transaction open exactly where the run has
/// opened one and not ended it, and holds in it all that it held when the
/// transaction began.
pub open spec fn in_step(run: RunView, store: StoreModel) -> bool {
    &&& store.saved is Some <==> (run.phase is AddingVisit || run.phase is Marking || run.phase
        is Committing || run.phase is RollingBack)
    &&& store.saved matches Some(before) ==> {
        &&& before.urls.submap_of(store.tables.urls)
        &&& before.visits.submap_of(store.tables.visits)
        &&& before.watermarks.dom().subset_of(store.tables.watermarks.dom())
    }
}

/// The store's answer to `command`: that of the model, or else the failure
/// `fault`, with which the store stays as it was.
pub open spec fn respond_or_fail(
    store: StoreModel,
    command: CommandView,
    fault: Option<SqlErrorView>,
) -> (StoreModel, SqlReplyView) {
    match fault {
        Some(e) => (store, Err(e)),
        None => store.respond(command),
    }
}

/// No failure costs the store what it held: whatever the store answers to a
/// command of a run, with or without a failure, the pages and the visits
/// that would have outlasted a rollback before still do so afterwards. So
/// the batches that a run has committed stay when a later batch fails, and
/// a rollback takes back no more than the batch that was being written.
pub proof fn lemma_settled_rows_stay(run: RunView, store: StoreModel, fault: Option<SqlErrorView>)
    requires
        run.wf(),
        in_step(run, store),
        run.pending() is Run,
    ensures
        ({
            let (next_store, reply) = respond_or_fail(store, run.pending()->Run_0, fault);
            let next = run.step(reply).0;
            &&& settled(store).urls.submap_of(settled(next_store).urls)
            &&& settled(store).visits.submap_of(settled(next_store).visits)
            &&& settled(store).watermarks.dom().subset_of(settled(next_store).watermarks.dom())
            &&& !(run.phase is RollingBack && fault is Some) ==> in_step(next, next_store)
        }),
{
}

} // verus!
