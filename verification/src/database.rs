//! The canonical store: its schema, the statements that read it, and the
//! run that merges a sequence of visits into it.
//!
//! A run resolves the URL of every visit to the identifier of its row,
//! looking it up and adding the row where it is missing. The visits are
//! written in batches, each in a transaction of its own. A visit whose page
//! and instant the store already holds is counted as a duplicate and the run
//! goes on. After the last visit of a batch the watermark of the source is
//! set to the instant of that visit, and the transaction is committed.

use crate::sql::{
    plain_statement, reply_view, spec_store_failure, store_failure, SqlCode, SqlErrorView,
    SqlReply, SqlReplyView, SqlValue, SqlValueView, Statement, StatementView,
};
use crate::text::{lemma_without_has_none, remove_char, without};
use crate::types::{
    visit_views, HistoryError, HistoryErrorView, HistoryVisit, VisitDetail, VisitDetailView,
};
use vstd::prelude::*;

verus! {

/// The number of visits that one transaction holds, unless told otherwise.
pub const DEFAULT_BATCH_NUM: usize = 100;

/// Creates the table of pages, one row for each URL.
pub const CREATE_URLS_SQL: &'static str =
    "CREATE TABLE IF NOT EXISTS onehistory_urls (id integer PRIMARY KEY AUTOINCREMENT, url text NOT NULL UNIQUE, title text)";

/// Creates the table of visits, one row for each page and instant.
pub const CREATE_VISITS_SQL: &'static str =
    "CREATE TABLE IF NOT EXISTS onehistory_visits (id integer PRIMARY KEY AUTOINCREMENT, item_id integer, visit_time integer, visit_type integer NOT NULL DEFAULT 0, UNIQUE(item_id, visit_time))";

/// Creates the table of watermarks, one row for each source file.
pub const CREATE_IMPORTS_SQL: &'static str =
    "CREATE TABLE IF NOT EXISTS import_records (id integer PRIMARY KEY AUTOINCREMENT, last_import integer, data_path text NOT NULL UNIQUE)";

/// Reads the identifier of the page whose URL is `?1`.
pub const FIND_URL_SQL: &'static str = "SELECT id FROM onehistory_urls WHERE url = ?1";

/// Adds the page with the URL `?1` and the title `?2`.
pub const ADD_URL_SQL: &'static str = "INSERT INTO onehistory_urls (url, title) VALUES (?1, ?2)";

/// Opens a transaction.
pub const BEGIN_SQL: &'static str = "BEGIN";

/// Adds the visit to the page `?1` at the instant `?2`, of the kind `?3`.
pub const ADD_VISIT_SQL: &'static str =
    "INSERT INTO onehistory_visits (item_id, visit_time, visit_type) VALUES (?1, ?2, ?3)";

/// Sets the watermark of the source file `?2` to `?1`, whether or not the
/// file has one.
pub const SET_WATERMARK_SQL: &'static str =
    "INSERT INTO import_records (last_import, data_path) VALUES (?1, ?2) ON CONFLICT (data_path) DO UPDATE SET last_import = ?1";

/// Commits the open transaction.
pub const COMMIT_SQL: &'static str = "COMMIT";

/// Gives up the open transaction.
pub const ROLLBACK_SQL: &'static str = "ROLLBACK";

/// The text of the failure where the row of a URL cannot be read back right
/// after it was added.
pub const URL_ROW_LOST: &'static str = "onehistory_urls: the row just added is missing";

/// One request of a run to the canonical store.
#[derive(Debug, PartialEq, Eq)]
pub enum StoreCommand {
    /// Look up the identifier of the row that holds `url`.
    FindUrl { url: String },
    /// Add a row for `url` with `title`.
    AddUrl { url: String, title: String },
    /// Open a transaction.
    Begin,
    /// Add a row for `visit`.
    AddVisit { visit: HistoryVisit },
    /// Set the watermark of the source file `path` to `last_import`.
    SetWatermark { path: String, last_import: i64 },
    /// Commit the open transaction.
    Commit,
    /// Give up the open transaction.
    Rollback,
}

/// What a `StoreCommand` holds, as mathematical values.
pub enum CommandView {
    FindUrl { url: Seq<char> },
    AddUrl { url: Seq<char>, title: Seq<char> },
    Begin,
    AddVisit { visit: HistoryVisit },
    SetWatermark { path: Seq<char>, last_import: i64 },
    Commit,
    Rollback,
}

impl View for StoreCommand {
    type V = CommandView;

    open spec fn view(&self) -> CommandView {
        match self {
            StoreCommand::FindUrl { url } => CommandView::FindUrl { url: url@ },
            StoreCommand::AddUrl { url, title } => CommandView::AddUrl {
                url: url@,
                title: title@,
            },
            StoreCommand::Begin => CommandView::Begin,
            StoreCommand::AddVisit { visit } => CommandView::AddVisit { visit: *visit },
            StoreCommand::SetWatermark { path, last_import } => CommandView::SetWatermark {
                path: path@,
                last_import: *last_import,
            },
            StoreCommand::Commit => CommandView::Commit,
            StoreCommand::Rollback => CommandView::Rollback,
        }
    }
}

/// The statement that carries out a command.
pub open spec fn spec_statement(c: CommandView) -> StatementView {
    match c {
        CommandView::FindUrl { url } => StatementView {
            sql: FIND_URL_SQL@,
            params: seq![SqlValueView::Text(url)],
        },
        CommandView::AddUrl { url, title } => StatementView {
            sql: ADD_URL_SQL@,
            params: seq![SqlValueView::Text(url), SqlValueView::Text(title)],
        },
        CommandView::Begin => StatementView { sql: BEGIN_SQL@, params: Seq::empty() },
        CommandView::AddVisit { visit } => StatementView {
            sql: ADD_VISIT_SQL@,
            params: seq![
                SqlValueView::Integer(visit.item_id),
                SqlValueView::Integer(visit.visit_time),
                SqlValueView::Integer(visit.visit_type),
            ],
        },
        CommandView::SetWatermark { path, last_import } => StatementView {
            sql: SET_WATERMARK_SQL@,
            params: seq![SqlValueView::Integer(last_import), SqlValueView::Text(path)],
        },
        CommandView::Commit => StatementView { sql: COMMIT_SQL@, params: Seq::empty() },
        CommandView::Rollback => StatementView { sql: ROLLBACK_SQL@, params: Seq::empty() },
    }
}

impl StoreCommand {
    /// The statement that carries out the command.
    pub fn statement(&self) -> (r: Statement)
        ensures
            r@ == spec_statement(self@),
    {
        match self {
            StoreCommand::FindUrl { url } => {
                let mut params: Vec<SqlValue> = Vec::new();
                params.push(SqlValue::Text(url.clone()));
                let r = Statement { sql: String::from_str(FIND_URL_SQL), params };
                assert(r@.params =~= spec_statement(self@).params);
                r
            },
            StoreCommand::AddUrl { url, title } => {
                let mut params: Vec<SqlValue> = Vec::new();
                params.push(SqlValue::Text(url.clone()));
                params.push(SqlValue::Text(title.clone()));
                let r = Statement { sql: String::from_str(ADD_URL_SQL), params };
                assert(r@.params =~= spec_statement(self@).params);
                r
            },
            StoreCommand::Begin => plain_statement(BEGIN_SQL),
            StoreCommand::AddVisit { visit } => {
                let mut params: Vec<SqlValue> = Vec::new();
                params.push(SqlValue::Integer(visit.item_id));
                params.push(SqlValue::Integer(visit.visit_time));
                params.push(SqlValue::Integer(visit.visit_type));
                let r = Statement { sql: String::from_str(ADD_VISIT_SQL), params };
                assert(r@.params =~= spec_statement(self@).params);
                r
            },
            StoreCommand::SetWatermark { path, last_import } => {
                let mut params: Vec<SqlValue> = Vec::new();
                params.push(SqlValue::Integer(*last_import));
                params.push(SqlValue::Text(path.clone()));
                let r = Statement { sql: String::from_str(SET_WATERMARK_SQL), params };
                assert(r@.params =~= spec_statement(self@).params);
                r
            },
            StoreCommand::Commit => plain_statement(COMMIT_SQL),
            StoreCommand::Rollback => plain_statement(ROLLBACK_SQL),
        }
    }
}


/// What a run is waiting for.
#[derive(Debug, Clone, Copy, PartialEq, Eq, Structural)]
pub enum Phase {
    /// The reply to the first look-up of the next visit's URL.
    FindingUrl,
    /// The reply to the addition of the next visit's URL.
    AddingUrl,
    /// The reply to the look-up that follows the addition.
    ConfirmingUrl,
    /// The reply to the opening of a transaction.
    Beginning,
    /// The reply to the addition of the visit under the cursor.
    AddingVisit,
    /// The reply to the watermark's update.
    Marking,
    /// The reply to the commit.
    Committing,
    /// The reply to the rollback that follows a failure.
    RollingBack,
    /// Nothing: the run is over.
    Finished,
}

/// What the run asks for next, or how it ended: with the numbers of visits
/// newly stored and of visits rejected as duplicates, or with a failure.
#[derive(Debug, PartialEq, Eq)]
pub enum PersistStep {
    Run(StoreCommand),
    Done(Result<(usize, usize), HistoryError>),
}

/// What a `PersistStep` holds, as mathematical values.
pub enum StepView {
    Run(CommandView),
    Done(Result<(nat, nat), HistoryErrorView>),
}

impl View for PersistStep {
    type V = StepView;

    open spec fn view(&self) -> StepView {
        match self {
            PersistStep::Run(c) => StepView::Run(c@),
            PersistStep::Done(Ok(counts)) => StepView::Done(
                Ok((counts.0 as nat, counts.1 as nat)),
            ),
            PersistStep::Done(Err(e)) => StepView::Done(Err(e@)),
        }
    }
}

/// The state of a run, as mathematical values.
pub struct RunView {
    /// The path of the source file, under which the watermark is kept.
    pub src_path: Seq<char>,
    /// The visits to merge, in the order given.
    pub visits: Seq<VisitDetailView>,
    /// How many visits one transaction holds.
    pub batch_size: nat,
    /// How many visits have their page resolved.
    pub resolved: nat,
    /// The resolved visits that no finished transaction holds yet.
    pub batch: Seq<HistoryVisit>,
    /// How many visits of the batch the open transaction has been given.
    pub cursor: nat,
    /// How many visits were newly stored.
    pub affected: nat,
    /// How many visits were rejected as duplicates.
    pub duplicated: nat,
    pub phase: Phase,
    /// The failure that ended the run, if one did.
    pub failure: Option<HistoryErrorView>,
}

impl RunView {
    /// The visit that is being resolved.
    pub open spec fn current(self) -> VisitDetailView {
        self.visits[self.resolved as int]
    }

    /// The position among `visits` of the first visit of the batch.
    pub open spec fn batch_start(self) -> int {
        self.resolved - self.batch.len()
    }

    /// The state is one that a run can reach.
    pub open spec fn wf(self) -> bool {
        &&& self.batch_size > 0
        &&& self.resolved <= self.visits.len()
        &&& self.batch.len() <= self.resolved
        &&& self.batch.len() <= self.batch_size
        &&& self.cursor <= self.batch.len()
        &&& self.affected + self.duplicated <= self.resolved
        &&& forall|i: int|
            0 <= i < self.batch.len() ==> {
                &&& (#[trigger] self.batch[i]).visit_time == self.visits[self.batch_start()
                    + i].visit_time
                &&& self.batch[i].visit_type == self.visits[self.batch_start() + i].visit_type
            }
        &&& match self.phase {
            Phase::FindingUrl | Phase::AddingUrl | Phase::ConfirmingUrl => {
                &&& self.resolved < self.visits.len()
                &&& self.batch.len() < self.batch_size
                &&& self.cursor == 0
                &&& self.failure is None
                &&& self.affected + self.duplicated == self.batch_start()
            },
            Phase::Beginning => {
                &&& self.batch.len() > 0
                &&& self.cursor == 0
                &&& self.failure is None
                &&& self.affected + self.duplicated == self.batch_start()
            },
            Phase::AddingVisit => {
                &&& self.cursor < self.batch.len()
                &&& self.failure is None
                &&& self.affected + self.duplicated == self.batch_start() + self.cursor
            },
            Phase::Marking | Phase::Committing => {
                &&& self.batch.len() > 0
                &&& self.cursor == self.batch.len()
                &&& self.failure is None
                &&& self.affected + self.duplicated == self.resolved
            },
            Phase::RollingBack => self.failure is Some,
            Phase::Finished => {
                ||| self.failure is Some
                ||| {
                    &&& self.resolved == self.visits.len()
                    &&& self.batch.len() == 0
                    &&& self.affected + self.duplicated == self.visits.len()
                }
            },
        }
    }

    /// How a finished run ended.
    pub open spec fn outcome(self) -> Result<(nat, nat), HistoryErrorView> {
        match self.failure {
            Some(e) => Err(e),
            None => Ok((self.affected, self.duplicated)),
        }
    }

    /// The run ends with the failure `e`.
    pub open spec fn fail(self, e: HistoryErrorView) -> (RunView, StepView) {
        (RunView { phase: Phase::Finished, failure: Some(e), ..self }, StepView::Done(Err(e)))
    }

    /// The run gives up the open transaction, to end with the failure `e`.
    pub open spec fn roll_back(self, e: HistoryErrorView) -> (RunView, StepView) {
        (
            RunView { phase: Phase::RollingBack, failure: Some(e), ..self },
            StepView::Run(CommandView::Rollback),
        )
    }

    /// The run looks up the URL of the next visit.
    pub open spec fn find_next(self) -> (RunView, StepView) {
        (
            RunView { phase: Phase::FindingUrl, ..self },
            StepView::Run(CommandView::FindUrl { url: self.current().url }),
        )
    }

    /// The page of the next visit has the identifier `id`: the visit joins
    /// the batch, and the batch is written once it is full or holds the last
    /// visit.
    pub open spec fn push_visit(self, id: i64) -> (RunView, StepView) {
        let visit = HistoryVisit {
            item_id: id,
            visit_time: self.current().visit_time,
            visit_type: self.current().visit_type,
        };
        let next = RunView {
            batch: self.batch.push(visit),
            resolved: self.resolved + 1,
            ..self
        };
        if next.batch.len() == next.batch_size || next.resolved == next.visits.len() {
            (RunView { phase: Phase::Beginning, ..next }, StepView::Run(CommandView::Begin))
        } else {
            next.find_next()
        }
    }

    /// The open transaction is given the visit under the cursor, or, past
    /// the last visit of the batch, the watermark: the instant of that last
    /// visit.
    pub open spec fn write_next(self) -> (RunView, StepView) {
        if self.cursor < self.batch.len() {
            (
                RunView { phase: Phase::AddingVisit, ..self },
                StepView::Run(CommandView::AddVisit { visit: self.batch[self.cursor as int] }),
            )
        } else {
            (
                RunView { phase: Phase::Marking, ..self },
                StepView::Run(
                    CommandView::SetWatermark {
                        path: self.src_path,
                        last_import: self.batch.last().visit_time,
                    },
                ),
            )
        }
    }

    /// The batch is committed: the run ends after the last visit, and goes on
    /// with the next visit otherwise.
    pub open spec fn close_batch(self) -> (RunView, StepView) {
        let next = RunView { batch: Seq::empty(), cursor: 0, ..self };
        if next.resolved == next.visits.len() {
            (RunView { phase: Phase::Finished, ..next }, StepView::Done(next.outcome()))
        } else {
            next.find_next()
        }
    }

    /// The first state of a run and what it asks for: nothing where there is
    /// no visit.
    pub open spec fn start(
        src_path: Seq<char>,
        visits: Seq<VisitDetailView>,
        batch_size: nat,
    ) -> (RunView, StepView) {
        let first = RunView {
            src_path,
            visits,
            batch_size,
            resolved: 0,
            batch: Seq::empty(),
            cursor: 0,
            affected: 0,
            duplicated: 0,
            phase: Phase::Finished,
            failure: None,
        };
        if visits.len() == 0 {
            (first, StepView::Done(Ok((0, 0))))
        } else {
            first.find_next()
        }
    }

    /// What a run in this state is waiting for: the reply to this command,
    /// or nothing where the run is over.
    pub open spec fn pending(self) -> StepView {
        match self.phase {
            Phase::FindingUrl | Phase::ConfirmingUrl => StepView::Run(
                CommandView::FindUrl { url: self.current().url },
            ),
            Phase::AddingUrl => StepView::Run(
                CommandView::AddUrl { url: self.current().url, title: self.current().title },
            ),
            Phase::Beginning => StepView::Run(CommandView::Begin),
            Phase::AddingVisit => StepView::Run(
                CommandView::AddVisit { visit: self.batch[self.cursor as int] },
            ),
            Phase::Marking => StepView::Run(
                CommandView::SetWatermark {
                    path: self.src_path,
                    last_import: self.batch.last().visit_time,
                },
            ),
            Phase::Committing => StepView::Run(CommandView::Commit),
            Phase::RollingBack => StepView::Run(CommandView::Rollback),
            Phase::Finished => StepView::Done(self.outcome()),
        }
    }

    /// The state after `reply`, and what the run asks for next.
    pub open spec fn step(self, reply: SqlReplyView) -> (RunView, StepView) {
        match self.phase {
            Phase::FindingUrl => match reply {
                Ok(Some(id)) => self.push_visit(id),
                Ok(None) => (
                    RunView { phase: Phase::AddingUrl, ..self },
                    StepView::Run(
                        CommandView::AddUrl {
                            url: self.current().url,
                            title: self.current().title,
                        },
                    ),
                ),
                Err(e) => self.fail(spec_store_failure(e)),
            },
            Phase::AddingUrl => match reply {
                Ok(_) => (
                    RunView { phase: Phase::ConfirmingUrl, ..self },
                    StepView::Run(CommandView::FindUrl { url: self.current().url }),
                ),
                Err(e) => self.fail(spec_store_failure(e)),
            },
            Phase::ConfirmingUrl => match reply {
                Ok(Some(id)) => self.push_visit(id),
                Ok(None) => self.fail(HistoryErrorView::StorageFault { message: URL_ROW_LOST@ }),
                Err(e) => self.fail(spec_store_failure(e)),
            },
            Phase::Beginning => match reply {
                Ok(_) => self.write_next(),
                Err(e) => self.fail(spec_store_failure(e)),
            },
            Phase::AddingVisit => match reply {
                Ok(_) => (RunView {
                    affected: self.affected + 1,
                    cursor: self.cursor + 1,
                    ..self
                }).write_next(),
                Err(e) => if e.code is UniqueViolation {
                    (RunView {
                        duplicated: self.duplicated + 1,
                        cursor: self.cursor + 1,
                        ..self
                    }).write_next()
                } else {
                    self.roll_back(spec_store_failure(e))
                },
            },
            Phase::Marking => match reply {
                Ok(_) => (
                    RunView { phase: Phase::Committing, ..self },
                    StepView::Run(CommandView::Commit),
                ),
                Err(e) => self.roll_back(spec_store_failure(e)),
            },
            Phase::Committing => match reply {
                Ok(_) => self.close_batch(),
                Err(e) => self.roll_back(spec_store_failure(e)),
            },
            Phase::RollingBack => (
                RunView { phase: Phase::Finished, ..self },
                StepView::Done(self.outcome()),
            ),
            Phase::Finished => (self, StepView::Done(self.outcome())),
        }
    }
}

/// A reachable state stays reachable, whatever the store replies.
pub proof fn lemma_step_wf(run: RunView, reply: SqlReplyView)
    requires
        run.wf(),
    ensures
        run.step(reply).0.wf(),
{
    let next = run.step(reply).0;
    match run.phase {
        Phase::FindingUrl | Phase::ConfirmingUrl => {
            if let Ok(Some(id)) = reply {
                assert forall|i: int| 0 <= i < next.batch.len() implies {
                    &&& (#[trigger] next.batch[i]).visit_time == next.visits[next.batch_start()
                        + i].visit_time
                    &&& next.batch[i].visit_type == next.visits[next.batch_start() + i].visit_type
                } by {
                    if i < run.batch.len() {
                        assert(next.batch[i] == run.batch[i]);
                    }
                }
            }
        },
        _ => {},
    }
}

/// What a run asks for is what its state is waiting for.
pub proof fn lemma_step_names_pending(run: RunView, reply: SqlReplyView)
    requires
        run.wf(),
    ensures
        run.step(reply).1 == run.step(reply).0.pending(),
{
}

/// A run ends well only after it has counted every visit, once: as stored
/// or as a duplicate.
pub proof fn lemma_done_counts_all(run: RunView, reply: SqlReplyView)
    requires
        run.wf(),
    ensures
        run.step(reply).1 matches StepView::Done(Ok(counts)) ==> counts.0 + counts.1
            == run.visits.len(),
{
    lemma_step_wf(run, reply);
}


/// The view of the failure that a run may hold.
pub open spec fn failure_view(failure: Option<HistoryError>) -> Option<HistoryErrorView> {
    match failure {
        Some(e) => Some(e@),
        None => None,
    }
}

/// A run that merges a sequence of visits into the canonical store. It is
/// made by `Database::persist`, and driven by handing the store's reply to
/// each command to `advance` until that returns `PersistStep::Done`. A run
/// is always in a state that a run can reach.
#[derive(Debug)]
pub struct PersistRun {
    src_path: String,
    details: Vec<VisitDetail>,
    batch_size: usize,
    resolved: usize,
    batch: Vec<HistoryVisit>,
    cursor: usize,
    affected: usize,
    duplicated: usize,
    phase: Phase,
    failure: Option<HistoryError>,
}

impl View for PersistRun {
    type V = RunView;

    closed spec fn view(&self) -> RunView {
        RunView {
            src_path: self.src_path@,
            visits: visit_views(self.details@),
            batch_size: self.batch_size as nat,
            resolved: self.resolved as nat,
            batch: self.batch@,
            cursor: self.cursor as nat,
            affected: self.affected as nat,
            duplicated: self.duplicated as nat,
            phase: self.phase,
            failure: failure_view(self.failure),
        }
    }
}

impl PersistRun {
    /// The state of a run is one that a run can reach.
    #[verifier::type_invariant]
    pub open spec fn reachable(self) -> bool {
        self@.wf()
    }

    /// Whether the run is over.
    pub fn is_finished(&self) -> (r: bool)
        ensures
            r == (self@.phase is Finished),
    {
        match self.phase {
            Phase::Finished => true,
            _ => false,
        }
    }

    /// How far the run has come: the number of visits that were stored or
    /// found to be duplicates, and the number of visits in all.
    pub fn progress(&self) -> (r: (usize, usize))
        ensures
            r.0 == self@.affected + self@.duplicated,
            r.1 == self@.visits.len(),
            r.0 <= r.1,
    {
        proof {
            use_type_invariant(self);
        }
        (self.affected + self.duplicated, self.details.len())
    }

    fn outcome(&self) -> (r: PersistStep)
        ensures
            r@ == StepView::Done(self@.outcome()),
    {
        match &self.failure {
            Some(e) => PersistStep::Done(Err(e.clone())),
            None => PersistStep::Done(Ok((self.affected, self.duplicated))),
        }
    }

    fn fail(self, e: HistoryError) -> (r: (PersistRun, PersistStep))
        ensures
            (r.0@, r.1@) == self@.fail(e@),
    {
        proof {
            use_type_invariant(&self);
        }
        let again = e.clone();
        (
            PersistRun { phase: Phase::Finished, failure: Some(e), ..self },
            PersistStep::Done(Err(again)),
        )
    }

    fn roll_back(self, e: HistoryError) -> (r: (PersistRun, PersistStep))
        ensures
            (r.0@, r.1@) == self@.roll_back(e@),
    {
        proof {
            use_type_invariant(&self);
        }
        (
            PersistRun { phase: Phase::RollingBack, failure: Some(e), ..self },
            PersistStep::Run(StoreCommand::Rollback),
        )
    }

    /// The page of the next visit has the identifier `id`.
    fn push_visit(self, id: i64) -> (r: (PersistRun, PersistStep))
        requires
            self@.phase is FindingUrl || self@.phase is ConfirmingUrl,
        ensures
            (r.0@, r.1@) == self@.push_visit(id),
    {
        proof {
            use_type_invariant(&self);
            lemma_step_wf(self@, Ok(Some(id)));
        }
        assert(self.resolved < self.details.len()) by {
            assert(self@.resolved < self@.visits.len());
        }
        let visit = HistoryVisit {
            item_id: id,
            visit_time: self.details[self.resolved].visit_time,
            visit_type: self.details[self.resolved].visit_type,
        };
        let resolved = self.resolved + 1;
        let mut batch = self.batch;
        batch.push(visit);
        if batch.len() == self.batch_size || resolved == self.details.len() {
            (
                PersistRun { batch, resolved, phase: Phase::Beginning, ..self },
                PersistStep::Run(StoreCommand::Begin),
            )
        } else {
            let url = self.details[resolved].url.clone();
            (
                PersistRun { batch, resolved, phase: Phase::FindingUrl, ..self },
                PersistStep::Run(StoreCommand::FindUrl { url }),
            )
        }
    }

    /// The look-up of a URL, and its addition where the look-up finds no
    /// row: the steps from one visit to the next.
    fn get_or_persist_url(self, reply: SqlReply) -> (r: (PersistRun, PersistStep))
        requires
            self@.phase is FindingUrl || self@.phase is AddingUrl || self@.phase is ConfirmingUrl,
        ensures
            (r.0@, r.1@) == self@.step(reply_view(reply)),
    {
        proof {
            use_type_invariant(&self);
        }
        assert(self.resolved < self.details.len()) by {
            assert(self@.resolved < self@.visits.len());
        }
        match reply {
            Err(e) => self.fail(store_failure(e)),
            Ok(row) => match self.phase {
                Phase::AddingUrl => {
                    let url = self.details[self.resolved].url.clone();
                    (
                        PersistRun { phase: Phase::ConfirmingUrl, ..self },
                        PersistStep::Run(StoreCommand::FindUrl { url }),
                    )
                },
                _ => match row {
                    Some(id) => self.push_visit(id),
                    None => match self.phase {
                        Phase::FindingUrl => {
                            let url = self.details[self.resolved].url.clone();
                            let title = self.details[self.resolved].title.clone();
                            (
                                PersistRun { phase: Phase::AddingUrl, ..self },
                                PersistStep::Run(StoreCommand::AddUrl { url, title }),
                            )
                        },
                        _ => self.fail(
                            HistoryError::StorageFault { message: String::from_str(URL_ROW_LOST) },
                        ),
                    },
                },
            },
        }
    }

    /// The command that sets the watermark of the run's source to `ts`.
    fn update_process(&self, ts: i64) -> (r: StoreCommand)
        ensures
            r@ == (CommandView::SetWatermark { path: self@.src_path, last_import: ts }),
    {
        StoreCommand::SetWatermark { path: self.src_path.clone(), last_import: ts }
    }

    /// The visit under the cursor was dealt with, as stored or as a
    /// duplicate: the next visit of the batch follows, or the watermark.
    fn written(self, stored: bool) -> (r: (PersistRun, PersistStep))
        requires
            self@.phase is AddingVisit,
        ensures
            (r.0@, r.1@) == (RunView {
                affected: self@.affected + if stored {
                    1nat
                } else {
                    0nat
                },
                duplicated: self@.duplicated + if stored {
                    0nat
                } else {
                    1nat
                },
                cursor: self@.cursor + 1,
                ..self@
            }).write_next(),
    {
        proof {
            use_type_invariant(&self);
            if stored {
                lemma_step_wf(self@, Ok(None));
            } else {
                lemma_step_wf(
                    self@,
                    Err(SqlErrorView { code: SqlCode::UniqueViolation, message: Seq::empty() }),
                );
            }
        }
        let affected = if stored {
            self.affected + 1
        } else {
            self.affected
        };
        let duplicated = if stored {
            self.duplicated
        } else {
            self.duplicated + 1
        };
        let cursor = self.cursor + 1;
        if cursor < self.batch.len() {
            let visit = self.batch[cursor];
            (
                PersistRun { affected, duplicated, cursor, phase: Phase::AddingVisit, ..self },
                PersistStep::Run(StoreCommand::AddVisit { visit }),
            )
        } else {
            let mark = self.update_process(self.batch[self.batch.len() - 1].visit_time);
            (
                PersistRun { affected, duplicated, cursor, phase: Phase::Marking, ..self },
                PersistStep::Run(mark),
            )
        }
    }

    /// The writing of one batch in a transaction of its own: the steps from
    /// the opening of the transaction to its commit.
    fn persist_visits(self, reply: SqlReply) -> (r: (PersistRun, PersistStep))
        requires
            self@.phase is Beginning || self@.phase is AddingVisit || self@.phase is Marking
                || self@.phase is Committing,
        ensures
            (r.0@, r.1@) == self@.step(reply_view(reply)),
    {
        proof {
            use_type_invariant(&self);
            lemma_step_wf(self@, reply_view(reply));
        }
        match self.phase {
            Phase::Beginning => match reply {
                Ok(_) => {
                    let visit = self.batch[0];
                    (
                        PersistRun { phase: Phase::AddingVisit, ..self },
                        PersistStep::Run(StoreCommand::AddVisit { visit }),
                    )
                },
                Err(e) => self.fail(store_failure(e)),
            },
            Phase::AddingVisit => match reply {
                Ok(_) => self.written(true),
                Err(e) => match e.code {
                    SqlCode::UniqueViolation => self.written(false),
                    _ => self.roll_back(store_failure(e)),
                },
            },
            Phase::Marking => match reply {
                Ok(_) => (
                    PersistRun { phase: Phase::Committing, ..self },
                    PersistStep::Run(StoreCommand::Commit),
                ),
                Err(e) => self.roll_back(store_failure(e)),
            },
            _ => match reply {
                Ok(_) => {
                    if self.resolved == self.details.len() {
                        let done = PersistRun {
                            batch: Vec::new(),
                            cursor: 0,
                            phase: Phase::Finished,
                            ..self
                        };
                        let step = done.outcome();
                        (done, step)
                    } else {
                        let url = self.details[self.resolved].url.clone();
                        (
                            PersistRun {
                                batch: Vec::new(),
                                cursor: 0,
                                phase: Phase::FindingUrl,
                                ..self
                            },
                            PersistStep::Run(StoreCommand::FindUrl { url }),
                        )
                    }
                },
                Err(e) => self.roll_back(store_failure(e)),
            },
        }
    }

    /// Takes the store's reply to the command that the run asked for last,
    /// and returns the run with what it asks for next, or how it ended. A
    /// run that has ended gives its result again.
    ///
    /// The store's failure ends the run with a `StorageFault`, after a
    /// rollback where a transaction is open; the one exception is a
    /// violation of uniqueness on the addition of a visit, which counts the
    /// visit as a duplicate. The batches that were committed before a
    /// failure stay in the store.
    pub fn advance(self, reply: SqlReply) -> (r: (PersistRun, PersistStep))
        ensures
            (r.0@, r.1@) == self@.step(reply_view(reply)),
            r.1 matches PersistStep::Done(Ok(counts)) ==> counts.0 + counts.1
                == self@.visits.len(),
    {
        proof {
            use_type_invariant(&self);
            lemma_step_wf(self@, reply_view(reply));
            lemma_done_counts_all(self@, reply_view(reply));
        }
        match self.phase {
            Phase::FindingUrl | Phase::AddingUrl | Phase::ConfirmingUrl => self.get_or_persist_url(
                reply,
            ),
            Phase::Beginning | Phase::AddingVisit | Phase::Marking | Phase::Committing => {
                self.persist_visits(reply)
            },
            Phase::RollingBack => {
                let done = PersistRun { phase: Phase::Finished, ..self };
                let step = done.outcome();
                (done, step)
            },
            Phase::Finished => {
                let step = self.outcome();
                (self, step)
            },
        }
    }
}

/// A run's first state is one that a run can reach.
pub proof fn lemma_start_wf(src_path: Seq<char>, visits: Seq<VisitDetailView>, batch_size: nat)
    requires
        batch_size > 0,
    ensures
        RunView::start(src_path, visits, batch_size).0.wf(),
        RunView::start(src_path, visits, batch_size).1 == RunView::start(
            src_path,
            visits,
            batch_size,
        ).0.pending(),
{
}

/// The canonical store, as the library knows it: the file that holds it and
/// the number of visits that one transaction holds. The connection itself
/// belongs to the caller, who runs the statements that the store's
/// operations name, one at a time and for one writer at a time.
#[derive(Debug)]
pub struct Database {
    path: String,
    persist_batch: usize,
}

impl Database {
    #[verifier::type_invariant]
    spec fn positive_batch(self) -> bool {
        self.persist_batch > 0
    }

    /// The path of the file that holds the store.
    pub closed spec fn spec_path(&self) -> Seq<char> {
        self.path@
    }

    /// The number of visits that one transaction holds.
    pub closed spec fn spec_batch_size(&self) -> nat {
        self.persist_batch as nat
    }

    /// The store in the file `sqlite_datafile`, with batches of the default
    /// size. The statements of `init` create its tables.
    pub fn open(sqlite_datafile: String) -> (db: Database)
        ensures
            db.spec_path() == sqlite_datafile@,
            db.spec_batch_size() == DEFAULT_BATCH_NUM,
    {
        Database { path: sqlite_datafile, persist_batch: DEFAULT_BATCH_NUM }
    }

    /// The same store with batches of `persist_batch` visits, or `None`
    /// where `persist_batch` is zero.
    pub fn with_batch_size(self, persist_batch: usize) -> (r: Option<Database>)
        ensures
            persist_batch == 0 ==> r is None,
            persist_batch > 0 ==> (r matches Some(db) && db.spec_path() == self.spec_path()
                && db.spec_batch_size() == persist_batch),
    {
        if persist_batch == 0 {
            None
        } else {
            Some(Database { path: self.path, persist_batch })
        }
    }

    /// The path of the file that holds the store.
    pub fn path(&self) -> (r: &str)
        ensures
            r@ == self.spec_path(),
    {
        self.path.as_str()
    }

    /// The number of visits that one transaction holds.
    pub fn batch_size(&self) -> (r: usize)
        ensures
            r == self.spec_batch_size(),
            r > 0,
    {
        proof {
            use_type_invariant(self);
        }
        self.persist_batch
    }

    /// The statements that create the three tables of the store where they
    /// are missing: pages, visits and watermarks, in this order. They may be
    /// run any number of times.
    pub fn init(&self) -> (r: Vec<Statement>)
        ensures
            r@.len() == 3,
            r@[0]@ == (StatementView { sql: CREATE_URLS_SQL@, params: Seq::empty() }),
            r@[1]@ == (StatementView { sql: CREATE_VISITS_SQL@, params: Seq::empty() }),
            r@[2]@ == (StatementView { sql: CREATE_IMPORTS_SQL@, params: Seq::empty() }),
    {
        let mut out: Vec<Statement> = Vec::new();
        out.push(plain_statement(CREATE_URLS_SQL));
        out.push(plain_statement(CREATE_VISITS_SQL));
        out.push(plain_statement(CREATE_IMPORTS_SQL));
        out
    }

    /// Begins the run that merges `details`, read from the source file
    /// `src_path`, into the store, and returns it with what it asks for
    /// first. With no visit the run is over at once, with `Ok((0, 0))`.
    ///
    /// A run takes it that it alone writes to the store while it lasts: the
    /// look-up of a URL and the addition that follows it are two
    /// statements, and a second writer between them would have the
    /// addition refused.
    pub fn persist(&self, src_path: &str, details: Vec<VisitDetail>) -> (r: (
        PersistRun,
        PersistStep,
    ))
        ensures
            (r.0@, r.1@) == RunView::start(
                src_path@,
                visit_views(details@),
                self.spec_batch_size(),
            ),
    {
        proof {
            use_type_invariant(self);
            lemma_start_wf(src_path@, visit_views(details@), self.spec_batch_size());
        }
        if details.len() == 0 {
            (
                PersistRun {
                    src_path: String::from_str(src_path),
                    details,
                    batch_size: self.persist_batch,
                    resolved: 0,
                    batch: Vec::new(),
                    cursor: 0,
                    affected: 0,
                    duplicated: 0,
                    phase: Phase::Finished,
                    failure: None,
                },
                PersistStep::Done(Ok((0, 0))),
            )
        } else {
            let url = details[0].url.clone();
            (
                PersistRun {
                    src_path: String::from_str(src_path),
                    details,
                    batch_size: self.persist_batch,
                    resolved: 0,
                    batch: Vec::new(),
                    cursor: 0,
                    affected: 0,
                    duplicated: 0,
                    phase: Phase::FindingUrl,
                    failure: None,
                },
                PersistStep::Run(StoreCommand::FindUrl { url }),
            )
        }
    }
}


/// The filter that lets every row through.
pub const NO_FILTER_SQL: &'static str = "1";

/// The filter for a keyword, up to the keyword.
pub const FILTER_URL_SQL: &'static str = "(instr(url, '";

/// The filter for a keyword, between the two places of the keyword.
pub const FILTER_TITLE_SQL: &'static str = "') > 0 OR instr(title, '";

/// The filter for a keyword, after the keyword.
pub const FILTER_END_SQL: &'static str = "') > 0)";

/// The character that ends a text in a statement, and which no keyword may
/// bring into one.
pub const APOSTROPHE: char = '\'';

/// Reads the visits between `?1` and `?2`, up to the filter.
pub const SELECT_VISITS_SQL: &'static str =
    "SELECT url, title, visit_time, visit_type FROM onehistory_urls u, onehistory_visits v ON u.id = v.item_id WHERE visit_time BETWEEN ?1 AND ?2 AND ";

/// Puts the visits in order, the oldest first.
pub const SELECT_VISITS_ORDER_SQL: &'static str = " ORDER BY visit_time";

/// Counts the visits of each local day between `?1` and `?2`, up to the
/// filter.
pub const SELECT_DAILY_SQL: &'static str =
    "SELECT visit_day, count(1) FROM (SELECT strftime('%Y-%m-%d', visit_time / 1000, 'unixepoch', 'localtime') AS visit_day FROM onehistory_visits v, onehistory_urls u ON v.item_id = u.id WHERE visit_time BETWEEN ?1 AND ?2 AND ";

/// Puts the days in order.
pub const SELECT_DAILY_GROUP_SQL: &'static str = ") GROUP BY visit_day ORDER BY visit_day";

/// Counts the visits to each URL with a title between `?1` and `?2`, up to
/// the filter.
pub const SELECT_URL_COUNT_SQL: &'static str =
    "SELECT url, count(1) AS cnt FROM (SELECT url FROM onehistory_visits v, onehistory_urls u ON v.item_id = u.id WHERE visit_time BETWEEN ?1 AND ?2 AND title != '' AND ";

/// Puts the URLs in order, the one with the most visits first.
pub const SELECT_URL_COUNT_GROUP_SQL: &'static str = ") GROUP BY url ORDER BY cnt DESC";

/// Counts the visits under each title between `?1` and `?2`, up to the
/// filter.
pub const SELECT_TITLE_COUNT_SQL: &'static str =
    "SELECT title, count(1) AS cnt FROM (SELECT title FROM onehistory_visits v, onehistory_urls u ON v.item_id = u.id WHERE visit_time BETWEEN ?1 AND ?2 AND title != '' AND ";

/// Keeps the hundred titles with the most visits, the one with the most
/// first.
pub const SELECT_TITLE_COUNT_GROUP_SQL: &'static str =
    ") GROUP BY title ORDER BY cnt DESC LIMIT 100";

/// Reads the instants of the oldest and of the newest visit.
pub const SELECT_MIN_MAX_SQL: &'static str =
    "SELECT min(visit_time), max(visit_time) FROM onehistory_visits";

/// The condition that a statement puts on a row for the keyword `kw`: none
/// without a keyword; else that the keyword, without its apostrophes, stands
/// in the URL or in the title, letter for letter.
pub open spec fn spec_keyword_filter(kw: Option<Seq<char>>) -> Seq<char> {
    match kw {
        None => NO_FILTER_SQL@,
        Some(v) => {
            let word = without(v, APOSTROPHE);
            FILTER_URL_SQL@ + word + FILTER_TITLE_SQL@ + word + FILTER_END_SQL@
        },
    }
}

/// The view of a keyword that may be missing.
pub open spec fn keyword_view(kw: Option<String>) -> Option<Seq<char>> {
    match kw {
        Some(v) => Some(v@),
        None => None,
    }
}

/// The statement that reads from the store between two instants, both of
/// which belong to the window: the text before the filter, the filter for
/// `kw`, and the text after it.
pub open spec fn spec_window_query(
    head: Seq<char>,
    tail: Seq<char>,
    start: i64,
    end: i64,
    kw: Option<Seq<char>>,
) -> StatementView {
    StatementView {
        sql: head + spec_keyword_filter(kw) + tail,
        params: seq![SqlValueView::Integer(start), SqlValueView::Integer(end)],
    }
}

/// The condition that a statement puts on a row for the keyword `kw`.
pub fn keyword_to_like(kw: Option<String>) -> (r: String)
    ensures
        r@ == spec_keyword_filter(keyword_view(kw)),
{
    match kw {
        None => String::from_str(NO_FILTER_SQL),
        Some(v) => {
            let word = remove_char(v.as_str(), APOSTROPHE);
            let mut out = String::from_str(FILTER_URL_SQL);
            out.append(word.as_str());
            out.append(FILTER_TITLE_SQL);
            out.append(word.as_str());
            out.append(FILTER_END_SQL);
            out
        },
    }
}

/// No apostrophe of a keyword reaches the statement.
pub proof fn lemma_keyword_loses_apostrophes(v: Seq<char>, i: int)
    requires
        0 <= i < without(v, APOSTROPHE).len(),
    ensures
        without(v, APOSTROPHE)[i] != APOSTROPHE,
{
    lemma_without_has_none(v, APOSTROPHE, i);
}

fn window_query(head: &str, tail: &str, start: i64, end: i64, keyword: Option<String>) -> (r:
    Statement)
    ensures
        r@ == spec_window_query(head@, tail@, start, end, keyword_view(keyword)),
{
    let filter = keyword_to_like(keyword);
    let mut sql = String::from_str(head);
    sql.append(filter.as_str());
    sql.append(tail);
    let mut params: Vec<SqlValue> = Vec::new();
    params.push(SqlValue::Integer(start));
    params.push(SqlValue::Integer(end));
    let r = Statement { sql, params };
    assert(r@.params =~= spec_window_query(
        head@,
        tail@,
        start,
        end,
        keyword_view(keyword),
    ).params);
    r
}

/// A row of the store's visits, as the statement of `select_visits` returns
/// it: the URL, the title, which may be missing, and the instant.
#[derive(Debug, PartialEq, Eq)]
pub struct StoredVisit {
    pub url: String,
    pub title: Option<String>,
    pub visit_time: i64,
}

/// What a `StoredVisit` holds, as mathematical values.
pub struct StoredVisitView {
    pub url: Seq<char>,
    pub title: Option<Seq<char>>,
    pub visit_time: i64,
}

impl View for StoredVisit {
    type V = StoredVisitView;

    open spec fn view(&self) -> StoredVisitView {
        StoredVisitView {
            url: self.url@,
            title: match self.title {
                Some(t) => Some(t@),
                None => None,
            },
            visit_time: self.visit_time,
        }
    }
}

impl Clone for StoredVisit {
    fn clone(&self) -> (r: Self)
        ensures
            r@ == self@,
    {
        StoredVisit {
            url: self.url.clone(),
            title: match &self.title {
                Some(t) => Some(t.clone()),
                None => None,
            },
            visit_time: self.visit_time,
        }
    }
}

/// A stored visit in canonical shape: a missing title is empty, and the
/// kind of visit, which is not read back, is 0.
pub open spec fn spec_stored_visit(row: StoredVisitView) -> VisitDetailView {
    VisitDetailView {
        url: row.url,
        title: match row.title {
            Some(t) => t,
            None => Seq::empty(),
        },
        visit_time: row.visit_time,
        visit_type: 0,
    }
}

impl Database {
    /// The statement that reads the visits between `start` and `end`, both
    /// of which belong to the window, that pass the filter of `keyword`,
    /// oldest first. Each row of its result holds the URL, the title, the
    /// instant and the kind of a visit.
    pub fn select_visits(&self, start: i64, end: i64, keyword: Option<String>) -> (r: Statement)
        ensures
            r@ == spec_window_query(
                SELECT_VISITS_SQL@,
                SELECT_VISITS_ORDER_SQL@,
                start,
                end,
                keyword_view(keyword),
            ),
    {
        window_query(SELECT_VISITS_SQL, SELECT_VISITS_ORDER_SQL, start, end, keyword)
    }

    /// The rows that the statement of `select_visits` returned, in canonical
    /// shape and in the same order.
    pub fn visits(&self, rows: Vec<StoredVisit>) -> (r: Vec<VisitDetail>)
        ensures
            r@.len() == rows@.len(),
            forall|i: int| 0 <= i < r@.len() ==> (#[trigger] r@[i])@ == spec_stored_visit(rows@[i]@),
    {
        let ghost all = rows@;
        let mut out: Vec<VisitDetail> = Vec::new();
        for row in it: rows
            invariant
                out@.len() == it.index(),
                it.seq() == all,
                forall|i: int|
                    0 <= i < out@.len() ==> (#[trigger] out@[i])@ == spec_stored_visit(all[i]@),
        {
            let title = match row.title {
                Some(t) => t,
                None => String::new(),
            };
            out.push(
                VisitDetail { url: row.url, title, visit_time: row.visit_time, visit_type: 0 },
            );
        }
        out
    }

    /// The statement that counts the visits of each local day between
    /// `start` and `end`, both of which belong to the window, that pass the
    /// filter of `keyword`. Each row of its result holds a day, written
    /// `Y-m-d`, and the number of its visits; the days come in order.
    pub fn select_daily_count(&self, start: i64, end: i64, keyword: Option<String>) -> (r:
        Statement)
        ensures
            r@ == spec_window_query(
                SELECT_DAILY_SQL@,
                SELECT_DAILY_GROUP_SQL@,
                start,
                end,
                keyword_view(keyword),
            ),
    {
        window_query(SELECT_DAILY_SQL, SELECT_DAILY_GROUP_SQL, start, end, keyword)
    }

    /// The statement that counts the visits to each URL with a title between
    /// `start` and `end`, both of which belong to the window, that pass the
    /// filter of `keyword`. Each row of its result holds a URL and the
    /// number of its visits; the URLs with the most visits come first.
    pub fn select_domain_top100(&self, start: i64, end: i64, keyword: Option<String>) -> (r:
        Statement)
        ensures
            r@ == spec_window_query(
                SELECT_URL_COUNT_SQL@,
                SELECT_URL_COUNT_GROUP_SQL@,
                start,
                end,
                keyword_view(keyword),
            ),
    {
        window_query(SELECT_URL_COUNT_SQL, SELECT_URL_COUNT_GROUP_SQL, start, end, keyword)
    }

    /// The statement that counts the visits under each title between `start`
    /// and `end`, both of which belong to the window, that pass the filter
    /// of `keyword`. Each row of its result holds a title and the number of
    /// its visits; the hundred titles with the most visits come, the one
    /// with the most first.
    pub fn select_title_top100(&self, start: i64, end: i64, keyword: Option<String>) -> (r:
        Statement)
        ensures
            r@ == spec_window_query(
                SELECT_TITLE_COUNT_SQL@,
                SELECT_TITLE_COUNT_GROUP_SQL@,
                start,
                end,
                keyword_view(keyword),
            ),
    {
        window_query(SELECT_TITLE_COUNT_SQL, SELECT_TITLE_COUNT_GROUP_SQL, start, end, keyword)
    }

    /// The statement that reads the instants of the oldest and of the newest
    /// visit in the store, in one row.
    pub fn select_min_max_time(&self) -> (r: Statement)
        ensures
            r@ == (StatementView { sql: SELECT_MIN_MAX_SQL@, params: Seq::empty() }),
    {
        plain_statement(SELECT_MIN_MAX_SQL)
    }
}

} // verus!
