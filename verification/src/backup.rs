//! The import of a list of history files into the canonical store.
//!
//! An import opens the store and creates its tables, then takes the files
//! one by one: it opens the file, finds out which browser wrote it, reads
//! the visits of the window and merges them into the store. A file that
//! fails is left out and the import goes on with the next one; what the
//! earlier files brought is kept. A file that is locked by another process
//! is copied to a private temporary file and tried once more on the copy.
//!
//! The import performs no input or output itself. It names the next thing
//! to do as an `Action`, and takes what came of it as an `Event`.

use crate::database::{
    lemma_start_wf, lemma_step_wf, spec_statement, Database, PersistRun, PersistStep, RunView,
    StepView, CREATE_IMPORTS_SQL, CREATE_URLS_SQL, CREATE_VISITS_SQL, DEFAULT_BATCH_NUM,
};
use crate::epoch::{fits_i64, spec_canonical_to_native};
use crate::progress::ProgressCollector;
use crate::source::{
    row_views, spec_normalize_all, spec_plain, spec_select, OpenRun, OpenStep, OpenStepView,
    OpenView, Source, SourceRow, SourceRowView, SourceView, JOURNAL_MODE_SQL,
};
use crate::sql::{
    plain_statement, reply_view, source_failure, spec_source_failure, spec_store_failure,
    store_failure, SqlCode, SqlError, SqlErrorView, SqlReply, SqlReplyView, Statement,
    StatementView,
};
use crate::types::{visit_views, HistoryError, HistoryErrorView, VisitDetail, VisitDetailView};
use vstd::prelude::*;

verus! {

/// The text of the failure where an event does not answer the action that
/// was asked for.
pub const UNEXPECTED_EVENT: &'static str = "the event does not answer the action";

/// The text of the failure where a locked file could not be copied.
pub const COPY_FAILED: &'static str = "the locked file could not be copied";

/// What an import has brought so far.
#[derive(Debug, Clone, Copy, PartialEq, Eq, Structural)]
pub struct Summary {
    /// The visits that were read from the files.
    pub found: usize,
    /// The visits that were newly stored.
    pub affected: usize,
    /// The visits that the store held already.
    pub duplicated: usize,
}

/// The next thing to do for an import.
#[derive(Debug, PartialEq, Eq)]
pub enum Action {
    /// Open the canonical store in the file `path`, and create the file
    /// where it is missing. Answered by `Opened` or `OpenFailed`.
    OpenStore { path: String },
    /// Open the history file `path` for reading only, in place of the
    /// history file that was open. Answered by `Opened` with the same path,
    /// or by `OpenFailed`.
    OpenSource { path: String },
    /// Copy the history file `path` to a private temporary file and open the
    /// copy for reading only, in place of the history file that was open.
    /// Answered by `Opened` with the path of the copy, by `CopyFailed`, or
    /// by `OpenFailed`.
    CopySource { path: String },
    /// Run the statement on the open history file. Answered by `Reply`.
    AskSource(Statement),
    /// Run the statement on the open history file and read all its rows.
    /// Answered by `Rows`.
    ReadSource(Statement),
    /// Run the statement on the canonical store. Answered by `Reply`.
    AskStore(Statement),
    /// Nothing: the import is over, with what it brought, or with the
    /// failure that kept the store from being opened.
    Finish(Result<Summary, HistoryError>),
}

/// What came of an action.
#[derive(Debug)]
pub enum Event {
    /// The file is open; `path` is the path of the file that was opened.
    Opened { path: String },
    /// The file could not be opened.
    OpenFailed(SqlError),
    /// The file could not be copied.
    CopyFailed,
    /// The reply to a statement.
    Reply(SqlReply),
    /// The rows of a statement, or the failure to read them.
    Rows(Result<Vec<SourceRow>, SqlError>),
}

/// What an `Action` holds, as mathematical values.
pub enum ActionView {
    OpenStore { path: Seq<char> },
    OpenSource { path: Seq<char> },
    CopySource { path: Seq<char> },
    AskSource(StatementView),
    ReadSource(StatementView),
    AskStore(StatementView),
    Finish(Result<Summary, HistoryErrorView>),
}

/// What an `Event` holds, as mathematical values.
pub enum EventView {
    Opened { path: Seq<char> },
    OpenFailed(SqlErrorView),
    CopyFailed,
    Reply(SqlReplyView),
    Rows(Result<Seq<SourceRowView>, SqlErrorView>),
}

impl View for Action {
    type V = ActionView;

    open spec fn view(&self) -> ActionView {
        match self {
            Action::OpenStore { path } => ActionView::OpenStore { path: path@ },
            Action::OpenSource { path } => ActionView::OpenSource { path: path@ },
            Action::CopySource { path } => ActionView::CopySource { path: path@ },
            Action::AskSource(statement) => ActionView::AskSource(statement@),
            Action::ReadSource(statement) => ActionView::ReadSource(statement@),
            Action::AskStore(statement) => ActionView::AskStore(statement@),
            Action::Finish(Ok(summary)) => ActionView::Finish(Ok(*summary)),
            Action::Finish(Err(e)) => ActionView::Finish(Err(e@)),
        }
    }
}

impl View for Event {
    type V = EventView;

    open spec fn view(&self) -> EventView {
        match self {
            Event::Opened { path } => EventView::Opened { path: path@ },
            Event::OpenFailed(e) => EventView::OpenFailed(e@),
            Event::CopyFailed => EventView::CopyFailed,
            Event::Reply(reply) => EventView::Reply(reply_view(*reply)),
            Event::Rows(Ok(rows)) => EventView::Rows(Ok(row_views(rows@))),
            Event::Rows(Err(e)) => EventView::Rows(Err(e@)),
        }
    }
}

/// The failure that stands for an event which does not answer the action.
pub open spec fn spec_unexpected() -> SqlErrorView {
    SqlErrorView { code: SqlCode::Other, message: UNEXPECTED_EVENT@ }
}

/// The reply that an event brings; an event that brings none counts as a
/// failed reply.
pub open spec fn spec_as_reply(event: EventView) -> SqlReplyView {
    match event {
        EventView::Reply(reply) => reply,
        _ => Err(spec_unexpected()),
    }
}

/// The statement that creates the table at position `i` of the store's
/// three.
pub open spec fn spec_schema(i: int) -> StatementView {
    if i == 0 {
        spec_plain(CREATE_URLS_SQL@)
    } else if i == 1 {
        spec_plain(CREATE_VISITS_SQL@)
    } else {
        spec_plain(CREATE_IMPORTS_SQL@)
    }
}

/// The sum of two counts, or the largest count where the sum is larger.
pub open spec fn spec_sum(a: usize, b: nat) -> usize {
    if a + b > usize::MAX {
        usize::MAX
    } else {
        (a + b) as usize
    }
}

/// The failure of a history file: the path under which the file was named,
/// and why it was left out or tried again.
#[derive(Debug, PartialEq, Eq)]
pub struct Failure {
    pub path: String,
    pub error: HistoryError,
}

/// What a `Failure` holds, as mathematical values.
pub struct FailureView {
    pub path: Seq<char>,
    pub error: HistoryErrorView,
}

impl View for Failure {
    type V = FailureView;

    open spec fn view(&self) -> FailureView {
        FailureView { path: self.path@, error: self.error@ }
    }
}

/// The views of a sequence of failures, in the same order.
pub open spec fn failure_views(failures: Seq<Failure>) -> Seq<FailureView> {
    Seq::new(failures.len(), |i: int| failures[i]@)
}

/// Where an import stands, as mathematical values.
pub enum StageView {
    /// The store is being opened.
    OpeningStore,
    /// The table at position `done` is being created.
    Preparing { done: nat },
    /// The current file, or its copy, is being opened.
    Opening,
    /// The family of the current file is being found out.
    Detecting(OpenView),
    /// The visits of the current file are being read.
    Reading(SourceView),
    /// The visits of the current file are being merged into the store.
    Storing(RunView),
    /// The import is over.
    Finished(Option<HistoryErrorView>),
}

/// The state of an import, as mathematical values.
pub struct BackupView {
    /// The paths of the history files.
    pub files: Seq<Seq<char>>,
    /// Whether the visits are only read and counted, and not stored.
    pub dry_run: bool,
    /// The start of the window, which belongs to it.
    pub start: i64,
    /// The end of the window, which does not.
    pub end: i64,
    /// The path of the store's file.
    pub db_path: Seq<char>,
    /// How many visits one transaction holds.
    pub batch_size: nat,
    /// The position of the current file.
    pub next: nat,
    /// Whether the current file is tried on a copy.
    pub retrying: bool,
    pub stage: StageView,
    pub totals: Summary,
    /// The failures of the files so far, each with the path of its file.
    pub failures: Seq<FailureView>,
}

impl BackupView {
    /// The state is one that an import can reach.
    pub open spec fn wf(self) -> bool {
        &&& self.batch_size > 0
        &&& self.next <= self.files.len()
        &&& match self.stage {
            StageView::OpeningStore => self.next == 0 && !self.retrying,
            StageView::Preparing { done } => done < 3 && self.next == 0 && !self.retrying,
            StageView::Opening => self.next < self.files.len(),
            StageView::Detecting(_) => self.next < self.files.len(),
            StageView::Reading(_) => self.next < self.files.len(),
            StageView::Storing(run) => self.next < self.files.len() && run.wf(),
            StageView::Finished(_) => true,
        }
    }

    /// The first state of an import, and what it asks for.
    pub open spec fn begin(
        files: Seq<Seq<char>>,
        db_path: Seq<char>,
        batch_size: nat,
        dry_run: bool,
        start: i64,
        end: i64,
    ) -> (BackupView, ActionView) {
        (
            BackupView {
                files,
                dry_run,
                start,
                end,
                db_path,
                batch_size,
                next: 0,
                retrying: false,
                stage: StageView::OpeningStore,
                totals: Summary { found: 0, affected: 0, duplicated: 0 },
                failures: Seq::empty(),
            },
            ActionView::OpenStore { path: db_path },
        )
    }

    /// The import ends with the failure `e`, because the store cannot be
    /// used.
    pub open spec fn abort(self, e: HistoryErrorView) -> (BackupView, ActionView) {
        (BackupView { stage: StageView::Finished(Some(e)), ..self }, ActionView::Finish(Err(e)))
    }

    /// The import turns to the file at position `at`, or ends where there is
    /// none.
    pub open spec fn turn_to(self, at: nat) -> (BackupView, ActionView) {
        if at < self.files.len() {
            (
                BackupView { next: at, retrying: false, stage: StageView::Opening, ..self },
                ActionView::OpenSource { path: self.files[at as int] },
            )
        } else {
            (
                BackupView {
                    next: self.files.len(),
                    retrying: false,
                    stage: StageView::Finished(None),
                    ..self
                },
                ActionView::Finish(Ok(self.totals)),
            )
        }
    }

    /// The import leaves the current file and turns to the next one.
    pub open spec fn next_source(self) -> (BackupView, ActionView) {
        self.turn_to(self.next + 1)
    }

    /// The current file failed with `e`: the failure is noted; a file that
    /// is locked is tried once more on a copy, any other is left out, as is
    /// a copy that fails.
    pub open spec fn fail_source(self, e: HistoryErrorView) -> (BackupView, ActionView) {
        let noted = BackupView {
            failures: self.failures.push(
                FailureView { path: self.files[self.next as int], error: e },
            ),
            ..self
        };
        if e is LockedSource && !self.retrying {
            (
                BackupView { retrying: true, stage: StageView::Opening, ..noted },
                ActionView::CopySource { path: self.files[self.next as int] },
            )
        } else {
            noted.next_source()
        }
    }

    /// The family of the current file is known: its visits are read.
    pub open spec fn read_source(self, source: SourceView) -> (BackupView, ActionView) {
        if fits_i64(spec_canonical_to_native(source.name, self.start as int)) && fits_i64(
            spec_canonical_to_native(source.name, self.end as int),
        ) {
            (
                BackupView { stage: StageView::Reading(source), ..self },
                ActionView::ReadSource(spec_select(source.name, self.start, self.end)),
            )
        } else {
            self.fail_source(HistoryErrorView::ConversionOverflow)
        }
    }

    /// The merge of the current file ended with `result`: what it stored
    /// and what it found held are added to the totals.
    pub open spec fn merged(self, result: Result<(nat, nat), HistoryErrorView>) -> (
        BackupView,
        ActionView,
    ) {
        match result {
            Ok(counts) => (BackupView {
                totals: Summary {
                    affected: spec_sum(self.totals.affected, counts.0),
                    duplicated: spec_sum(self.totals.duplicated, counts.1),
                    ..self.totals
                },
                ..self
            }).next_source(),
            Err(e) => self.fail_source(e),
        }
    }

    /// The visits of the current file are read: they are counted as found
    /// and, unless the import is a dry run, merged into the store under the
    /// path of the file that was opened.
    pub open spec fn store_visits(
        self,
        source: SourceView,
        visits: Seq<VisitDetailView>,
    ) -> (BackupView, ActionView) {
        let counted = BackupView {
            totals: Summary { found: spec_sum(self.totals.found, visits.len()), ..self.totals },
            ..self
        };
        if self.dry_run {
            counted.next_source()
        } else {
            let (run, step) = RunView::start(source.path, visits, self.batch_size);
            match step {
                StepView::Run(command) => (
                    BackupView { stage: StageView::Storing(run), ..counted },
                    ActionView::AskStore(spec_statement(command)),
                ),
                StepView::Done(result) => counted.merged(result),
            }
        }
    }

    /// The state after `event`, and what the import asks for next.
    pub open spec fn step(self, event: EventView) -> (BackupView, ActionView) {
        match self.stage {
            StageView::OpeningStore => match event {
                EventView::Opened { .. } => (
                    BackupView { stage: StageView::Preparing { done: 0 }, ..self },
                    ActionView::AskStore(spec_schema(0)),
                ),
                EventView::OpenFailed(e) => self.abort(spec_store_failure(e)),
                _ => self.abort(spec_store_failure(spec_unexpected())),
            },
            StageView::Preparing { done } => match spec_as_reply(event) {
                Ok(_) => if done + 1 < 3 {
                    (
                        BackupView { stage: StageView::Preparing { done: done + 1 }, ..self },
                        ActionView::AskStore(spec_schema(done + 1 as int)),
                    )
                } else {
                    self.turn_to(0)
                },
                Err(e) => self.abort(spec_store_failure(e)),
            },
            StageView::Opening => match event {
                EventView::Opened { path } => (
                    BackupView { stage: StageView::Detecting(OpenView::start(path).0), ..self },
                    ActionView::AskSource(spec_plain(JOURNAL_MODE_SQL@)),
                ),
                EventView::OpenFailed(e) => self.fail_source(spec_source_failure(e)),
                EventView::CopyFailed => self.fail_source(
                    HistoryErrorView::StorageFault { message: COPY_FAILED@ },
                ),
                _ => self.fail_source(spec_source_failure(spec_unexpected())),
            },
            StageView::Detecting(open) => match open.step(spec_as_reply(event)) {
                (next, OpenStepView::Run(statement)) => (
                    BackupView { stage: StageView::Detecting(next), ..self },
                    ActionView::AskSource(statement),
                ),
                (_, OpenStepView::Done(Ok(source))) => self.read_source(source),
                (_, OpenStepView::Done(Err(e))) => self.fail_source(e),
            },
            StageView::Reading(source) => match event {
                EventView::Rows(Ok(rows)) => self.store_visits(
                    source,
                    spec_normalize_all(source.name, rows),
                ),
                EventView::Rows(Err(e)) => self.fail_source(spec_source_failure(e)),
                _ => self.fail_source(spec_source_failure(spec_unexpected())),
            },
            StageView::Storing(run) => match run.step(spec_as_reply(event)) {
                (next, StepView::Run(command)) => (
                    BackupView { stage: StageView::Storing(next), ..self },
                    ActionView::AskStore(spec_statement(command)),
                ),
                (_, StepView::Done(result)) => self.merged(result),
            },
            StageView::Finished(failure) => (
                self,
                ActionView::Finish(
                    match failure {
                        Some(e) => Err(e),
                        None => Ok(self.totals),
                    },
                ),
            ),
        }
    }
}

/// A reachable state stays reachable, whatever comes of the action.
pub proof fn lemma_backup_step_wf(state: BackupView, event: EventView)
    requires
        state.wf(),
    ensures
        state.step(event).0.wf(),
{
    match state.stage {
        StageView::Storing(run) => {
            lemma_step_wf(run, spec_as_reply(event));
        },
        StageView::Reading(source) => {
            if let EventView::Rows(Ok(rows)) = event {
                lemma_start_wf(
                    source.path,
                    spec_normalize_all(source.name, rows),
                    state.batch_size,
                );
            }
        },
        _ => {},
    }
}


/// A file that is locked when it is opened is copied, and tried on the
/// copy.
pub proof fn lemma_locked_source_is_copied(state: BackupView, e: SqlErrorView)
    requires
        state.wf(),
        state.stage is Opening,
        !state.retrying,
        e.code is DatabaseBusy,
    ensures
        state.step(EventView::OpenFailed(e)).1 == (ActionView::CopySource {
            path: state.files[state.next as int],
        }),
        state.step(EventView::OpenFailed(e)).0.retrying,
        state.step(EventView::OpenFailed(e)).0.next == state.next,
        state.step(EventView::OpenFailed(e)).0.totals == state.totals,
{
}

/// No file is copied twice: while a copy is tried, nothing asks for another.
pub proof fn lemma_retry_once(state: BackupView, event: EventView)
    requires
        state.wf(),
        state.retrying,
    ensures
        !(state.step(event).1 is CopySource),
{
}

/// A copy that cannot be made or opened leaves the file out: the counts
/// stay, and the import turns to the next file, or ends well after the last
/// one.
pub proof fn lemma_failed_retry_skips(state: BackupView, event: EventView)
    requires
        state.wf(),
        state.retrying,
        state.stage is Opening,
        event is OpenFailed || event is CopyFailed,
    ensures
        state.step(event).0.totals == state.totals,
        state.step(event).0.failures.len() == state.failures.len() + 1,
        state.next + 1 < state.files.len() ==> state.step(event).1 == (ActionView::OpenSource {
            path: state.files[state.next + 1 as int],
        }),
        state.next + 1 >= state.files.len() ==> state.step(event).1 == ActionView::Finish(
            Ok(state.totals),
        ),
{
}

/// How often an import asks for a copy of the file at position `at`, from
/// `state` on, while `events` come of its actions one after the other.
pub open spec fn copies_of(state: BackupView, events: Seq<EventView>, at: nat) -> nat
    decreases events.len(),
{
    if events.len() == 0 {
        0
    } else {
        let (next, action) = state.step(events[0]);
        let here: nat = if action is CopySource && state.next == at {
            1
        } else {
            0
        };
        here + copies_of(next, events.drop_first(), at)
    }
}

/// Whatever comes of its actions, an import asks for a copy of a file once
/// at most, and not at all once it tries the file on a copy or has left it.
pub proof fn lemma_one_copy_for_a_file(state: BackupView, events: Seq<EventView>, at: nat)
    requires
        state.wf(),
    ensures
        copies_of(state, events, at) <= 1,
        state.next > at || (state.next == at && state.retrying) || state.stage is Finished
            ==> copies_of(state, events, at) == 0,
    decreases events.len(),
{
    if events.len() > 0 {
        let next = state.step(events[0]).0;
        lemma_backup_step_wf(state, events[0]);
        lemma_one_copy_for_a_file(next, events.drop_first(), at);
    }
}

/// What an import has brought stays: no step makes a count smaller,
/// whatever comes of the action.
pub proof fn lemma_totals_never_shrink(state: BackupView, event: EventView)
    requires
        state.wf(),
    ensures
        state.step(event).0.totals.found >= state.totals.found,
        state.step(event).0.totals.affected >= state.totals.affected,
        state.step(event).0.totals.duplicated >= state.totals.duplicated,
        state.step(event).0.failures.len() >= state.failures.len(),
{
}

/// Whether `event` ends the merge of the current file well.
pub open spec fn ends_merge_well(state: BackupView, event: EventView) -> bool {
    match state.stage {
        StageView::Storing(run) => run.step(spec_as_reply(event)).1 matches StepView::Done(Ok(_)),
        _ => false,
    }
}

/// Once the store is ready no failure ends the import: it ends well, after
/// the last file. A step changes the numbers of visits stored and of
/// duplicates only where it ends the merge of a file well: a file that
/// fails brings nothing.
pub proof fn lemma_source_failure_is_contained(state: BackupView, event: EventView)
    requires
        state.wf(),
        state.stage is Opening || state.stage is Detecting || state.stage is Reading
            || state.stage is Storing,
    ensures
        !(state.step(event).1 matches ActionView::Finish(Err(_))),
        !ends_merge_well(state, event) ==> state.step(event).0.totals.affected
            == state.totals.affected,
        !ends_merge_well(state, event) ==> state.step(event).0.totals.duplicated
            == state.totals.duplicated,
{
}

/// The views of a sequence of paths, in the same order.
pub open spec fn path_views(paths: Seq<String>) -> Seq<Seq<char>> {
    Seq::new(paths.len(), |i: int| paths[i]@)
}

/// The view of the failure that an import may have ended with.
pub open spec fn ending_view(failure: Option<HistoryError>) -> Option<HistoryErrorView> {
    match failure {
        Some(e) => Some(e@),
        None => None,
    }
}

#[derive(Debug)]
enum Stage {
    OpeningStore,
    Preparing { done: usize },
    Opening,
    Detecting(OpenRun),
    Reading(Source),
    Storing(PersistRun),
    Finished(Option<HistoryError>),
}

impl View for Stage {
    type V = StageView;

    closed spec fn view(&self) -> StageView {
        match self {
            Stage::OpeningStore => StageView::OpeningStore,
            Stage::Preparing { done } => StageView::Preparing { done: *done as nat },
            Stage::Opening => StageView::Opening,
            Stage::Detecting(open) => StageView::Detecting(open@),
            Stage::Reading(source) => StageView::Reading(source@),
            Stage::Storing(run) => StageView::Storing(run@),
            Stage::Finished(failure) => StageView::Finished(ending_view(*failure)),
        }
    }
}

/// An import of history files into the canonical store. It is made by
/// `backup`, and driven by handing what came of each action to `advance`
/// until that returns `Action::Finish`. An import is always in a state that
/// an import can reach.
#[derive(Debug)]
pub struct Backup {
    files: Vec<String>,
    dry_run: bool,
    start: i64,
    end: i64,
    db: Database,
    next: usize,
    retrying: bool,
    stage: Stage,
    totals: Summary,
    failures: Vec<Failure>,
}

impl View for Backup {
    type V = BackupView;

    closed spec fn view(&self) -> BackupView {
        BackupView {
            files: path_views(self.files@),
            dry_run: self.dry_run,
            start: self.start,
            end: self.end,
            db_path: self.db.spec_path(),
            batch_size: self.db.spec_batch_size(),
            next: self.next as nat,
            retrying: self.retrying,
            stage: self.stage@,
            totals: self.totals,
            failures: failure_views(self.failures@),
        }
    }
}

fn sum(a: usize, b: usize) -> (r: usize)
    ensures
        r == spec_sum(a, b as nat),
{
    a.saturating_add(b)
}

fn as_reply(event: Event) -> (r: SqlReply)
    ensures
        reply_view(r) == spec_as_reply(event@),
{
    match event {
        Event::Reply(reply) => reply,
        _ => Err(unexpected()),
    }
}

fn unexpected() -> (r: SqlError)
    ensures
        r@ == spec_unexpected(),
{
    SqlError { code: SqlCode::Other, message: String::from_str(UNEXPECTED_EVENT) }
}

fn schema(i: usize) -> (r: Statement)
    ensures
        r@ == spec_schema(i as int),
{
    if i == 0 {
        plain_statement(CREATE_URLS_SQL)
    } else if i == 1 {
        plain_statement(CREATE_VISITS_SQL)
    } else {
        plain_statement(CREATE_IMPORTS_SQL)
    }
}

impl Backup {
    /// The state of an import is one that an import can reach.
    #[verifier::type_invariant]
    pub open spec fn reachable(self) -> bool {
        self@.wf()
    }

    /// What the import has brought so far.
    pub fn totals(&self) -> (r: Summary)
        ensures
            r == self@.totals,
    {
        self.totals
    }

    /// The failures of the files so far, the oldest first.
    pub fn failures(&self) -> (r: &Vec<Failure>)
        ensures
            failure_views(r@) == self@.failures,
    {
        &self.failures
    }

    /// How far the merge of the current file has come: the number of its
    /// visits that were stored or found to be duplicates, and the number of
    /// its visits; `None` while no file is being merged.
    pub fn progress(&self) -> (r: Option<(usize, usize)>)
        ensures
            match self@.stage {
                StageView::Storing(run) => r == Some(
                    ((run.affected + run.duplicated) as usize, run.visits.len() as usize),
                ),
                _ => r is None,
            },
    {
        proof {
            use_type_invariant(self);
        }
        match &self.stage {
            Stage::Storing(run) => Some(run.progress()),
            _ => None,
        }
    }

    /// Tells `collector` that the merge of the current file has come from
    /// `before` to where it stands now, and that it is over where the import
    /// has left the file. Returns where the merge stands now.
    pub fn report<C: ProgressCollector>(&self, collector: &C, before: Option<usize>) -> (r: Option<
        usize,
    >)
        ensures
            match self@.stage {
                StageView::Storing(run) => r == Some((run.affected + run.duplicated) as usize),
                _ => r is None,
            },
    {
        match self.progress() {
            Some((written, _)) => {
                let from = match before {
                    Some(n) => n,
                    None => 0,
                };
                if written > from {
                    collector.inc((written - from) as u64);
                }
                Some(written)
            },
            None => {
                if before.is_some() {
                    collector.finish();
                }
                None
            },
        }
    }

    fn abort(self, e: HistoryError) -> (r: (Backup, Action))
        ensures
            (r.0@, r.1@) == self@.abort(e@),
    {
        proof {
            use_type_invariant(&self);
        }
        let again = e.clone();
        (Backup { stage: Stage::Finished(Some(e)), ..self }, Action::Finish(Err(again)))
    }

    fn turn_to(self, at: usize) -> (r: (Backup, Action))
        ensures
            (r.0@, r.1@) == self@.turn_to(at as nat),
    {
        proof {
            use_type_invariant(&self);
        }
        if at < self.files.len() {
            let path = self.files[at].clone();
            (
                Backup { next: at, retrying: false, stage: Stage::Opening, ..self },
                Action::OpenSource { path },
            )
        } else {
            let totals = self.totals;
            let next = self.files.len();
            (
                Backup { next, retrying: false, stage: Stage::Finished(None), ..self },
                Action::Finish(Ok(totals)),
            )
        }
    }

    fn next_source(self) -> (r: (Backup, Action))
        requires
            self.next < self.files.len(),
        ensures
            (r.0@, r.1@) == self@.next_source(),
    {
        let at = self.next + 1;
        self.turn_to(at)
    }

    fn fail_source(self, e: HistoryError) -> (r: (Backup, Action))
        requires
            self.next < self.files.len(),
        ensures
            (r.0@, r.1@) == self@.fail_source(e@),
    {
        proof {
            use_type_invariant(&self);
        }
        let ghost before = failure_views(self.failures@);
        let locked = e.is_locked();
        let path = self.files[self.next].clone();
        let mut failures = self.failures;
        failures.push(Failure { path, error: e });
        proof {
            assert(failure_views(failures@) =~= before.push(failure_views(failures@).last()));
        }
        let noted = Backup { failures, ..self };
        if locked && !noted.retrying {
            let path = noted.files[noted.next].clone();
            (
                Backup { retrying: true, stage: Stage::Opening, ..noted },
                Action::CopySource { path },
            )
        } else {
            noted.next_source()
        }
    }

    fn read_source(self, source: Source) -> (r: (Backup, Action))
        requires
            self.next < self.files.len(),
        ensures
            (r.0@, r.1@) == self@.read_source(source@),
    {
        proof {
            use_type_invariant(&self);
        }
        match source.select(self.start, self.end) {
            Ok(statement) => (
                Backup { stage: Stage::Reading(source), ..self },
                Action::ReadSource(statement),
            ),
            Err(_) => self.fail_source(HistoryError::ConversionOverflow),
        }
    }

    fn merged(self, result: Result<(usize, usize), HistoryError>) -> (r: (Backup, Action))
        requires
            self.next < self.files.len(),
        ensures
            (r.0@, r.1@) == self@.merged(
                match result {
                    Ok(counts) => Ok((counts.0 as nat, counts.1 as nat)),
                    Err(e) => Err(e@),
                },
            ),
    {
        proof {
            use_type_invariant(&self);
        }
        match result {
            Ok(counts) => {
                let totals = Summary {
                    found: self.totals.found,
                    affected: sum(self.totals.affected, counts.0),
                    duplicated: sum(self.totals.duplicated, counts.1),
                };
                let counted = Backup { totals, ..self };
                counted.next_source()
            },
            Err(e) => self.fail_source(e),
        }
    }

    fn store_visits(self, source: Source, visits: Vec<VisitDetail>) -> (r: (Backup, Action))
        requires
            self.next < self.files.len(),
        ensures
            (r.0@, r.1@) == self@.store_visits(source@, visit_views(visits@)),
    {
        proof {
            use_type_invariant(&self);
        }
        let totals = Summary {
            found: sum(self.totals.found, visits.len()),
            affected: self.totals.affected,
            duplicated: self.totals.duplicated,
        };
        let counted = Backup { totals, ..self };
        if counted.dry_run {
            counted.next_source()
        } else {
            let (run, step) = counted.db.persist(source.path(), visits);
            match step {
                PersistStep::Run(command) => {
                    let statement = command.statement();
                    proof {
                        use_type_invariant(&run);
                    }
                    (Backup { stage: Stage::Storing(run), ..counted }, Action::AskStore(statement))
                },
                PersistStep::Done(result) => counted.merged(result),
            }
        }
    }

    /// Takes what came of the action that the import asked for last, and
    /// returns what it asks for next. An event that does not answer the
    /// action counts as a failure of the action. An import that is over
    /// gives its result again.
    pub fn advance(self, event: Event) -> (r: (Backup, Action))
        ensures
            (r.0@, r.1@) == self@.step(event@),
    {
        proof {
            use_type_invariant(&self);
            lemma_backup_step_wf(self@, event@);
        }
        match self.stage {
            Stage::OpeningStore => {
                let base = Backup { stage: Stage::OpeningStore, ..self };
                match event {
                    Event::Opened { .. } => (
                        Backup { stage: Stage::Preparing { done: 0 }, ..base },
                        Action::AskStore(schema(0)),
                    ),
                    Event::OpenFailed(e) => base.abort(store_failure(e)),
                    _ => base.abort(store_failure(unexpected())),
                }
            },
            Stage::Preparing { done } => {
                let base = Backup { stage: Stage::OpeningStore, ..self };
                match as_reply(event) {
                    Ok(_) => if done + 1 < 3 {
                        (
                            Backup { stage: Stage::Preparing { done: done + 1 }, ..base },
                            Action::AskStore(schema(done + 1)),
                        )
                    } else {
                        base.turn_to(0)
                    },
                    Err(e) => base.abort(store_failure(e)),
                }
            },
            Stage::Opening => {
                let base = Backup { stage: Stage::Opening, ..self };
                match event {
                    Event::Opened { path } => {
                        let (open, statement) = Source::open(path);
                        (Backup { stage: Stage::Detecting(open), ..base }, Action::AskSource(statement))
                    },
                    Event::OpenFailed(e) => base.fail_source(source_failure(e)),
                    Event::CopyFailed => base.fail_source(
                        HistoryError::StorageFault { message: String::from_str(COPY_FAILED) },
                    ),
                    _ => base.fail_source(source_failure(unexpected())),
                }
            },
            Stage::Detecting(open) => {
                let base = Backup { stage: Stage::Opening, ..self };
                let (open, step) = open.advance(as_reply(event));
                match step {
                    OpenStep::Run(statement) => (
                        Backup { stage: Stage::Detecting(open), ..base },
                        Action::AskSource(statement),
                    ),
                    OpenStep::Done(Ok(source)) => base.read_source(source),
                    OpenStep::Done(Err(e)) => base.fail_source(e),
                }
            },
            Stage::Reading(source) => {
                let base = Backup { stage: Stage::Opening, ..self };
                match event {
                    Event::Rows(Ok(rows)) => {
                        let visits = source.visits(rows);
                        base.store_visits(source, visits)
                    },
                    Event::Rows(Err(e)) => base.fail_source(source_failure(e)),
                    _ => base.fail_source(source_failure(unexpected())),
                }
            },
            Stage::Storing(run) => {
                let base = Backup { stage: Stage::Opening, ..self };
                let (run, step) = run.advance(as_reply(event));
                match step {
                    PersistStep::Run(command) => {
                        let statement = command.statement();
                        proof {
                            use_type_invariant(&run);
                        }
                        (Backup { stage: Stage::Storing(run), ..base }, Action::AskStore(statement))
                    },
                    PersistStep::Done(result) => base.merged(result),
                }
            },
            Stage::Finished(failure) => {
                let action = match &failure {
                    Some(e) => Action::Finish(Err(e.clone())),
                    None => Action::Finish(Ok(self.totals)),
                };
                (Backup { stage: Stage::Finished(failure), ..self }, action)
            },
        }
    }
}

/// Begins the import of `history_files` into the store in the file
/// `db_file`, and returns it with what it asks for first: that the store be
/// opened. The visits whose instant lies in `window`, which holds its start
/// and not its end, are read; in a dry run they are counted and not stored.
pub fn backup(history_files: Vec<String>, db_file: String, dry_run: bool, window: (i64, i64)) -> (r:
    (Backup, Action))
    ensures
        (r.0@, r.1@) == BackupView::begin(
            path_views(history_files@),
            db_file@,
            DEFAULT_BATCH_NUM as nat,
            dry_run,
            window.0,
            window.1,
        ),
{
    let path = db_file.clone();
    let db = Database::open(db_file);
    let import = Backup {
        files: history_files,
        dry_run,
        start: window.0,
        end: window.1,
        db,
        next: 0,
        retrying: false,
        stage: Stage::OpeningStore,
        totals: Summary { found: 0, affected: 0, duplicated: 0 },
        failures: Vec::new(),
    };
    assert(failure_views(import.failures@) =~= Seq::empty());
    (import, Action::OpenStore { path })
}

} // verus!
