//! A browser's history file: which family wrote it, which statement reads
//! its visits, and how a row of it becomes a visit in canonical shape.

use crate::epoch::{
    canonical_to_native, fits_i64, prtime_to_unixepoch_ms, spec_canonical_to_native,
    spec_native_to_canonical, spec_prtime_to_ms, spec_webkit_to_ms, webkit_to_unixepoch_ms,
};
use crate::sql::{
    is_missing_table, plain_statement, reply_view, source_failure, spec_is_missing_table,
    spec_source_failure, SqlReply, SqlReplyView, SqlValue, SqlValueView, Statement, StatementView,
};
use crate::types::{
    visit_views, HistoryError, HistoryErrorView, SourceName, VisitDetail, VisitDetailView,
};
use vstd::prelude::*;

verus! {

/// Takes the file out of write-ahead logging, which a second process cannot
/// always read.
pub const JOURNAL_MODE_SQL: &'static str = "PRAGMA journal_mode = DELETE";

/// Succeeds on a file that Firefox wrote.
pub const PROBE_FIREFOX_SQL: &'static str = "select 1 from moz_historyvisits limit 1";

/// Succeeds on a file that Safari wrote.
pub const PROBE_SAFARI_SQL: &'static str = "select 1 from history_items limit 1";

/// Succeeds on a file that Chrome wrote.
pub const PROBE_CHROME_SQL: &'static str = "select 1 from visits limit 1";

/// Reads Safari's visits between `?1` and `?2`, both in seconds since
/// 2001-01-01; the instant comes out in microseconds since 1970-01-01.
pub const SELECT_SAFARI_SQL: &'static str =
    "SELECT url, title, CAST((visit_time + 978307200.0) * 1000000 AS integer) AS visit_time, -1 FROM history_items AS hi, history_visits AS hv ON hi.id = hv.history_item WHERE hv.visit_time >= ?1 AND hv.visit_time < ?2 ORDER BY hv.visit_time";

/// Reads Firefox's visits between `?1` and `?2`, both in its own encoding,
/// as is the instant that comes out.
pub const SELECT_FIREFOX_SQL: &'static str =
    "SELECT p.url, p.title, h.visit_date, h.visit_type FROM moz_historyvisits h, moz_places p ON h.place_id = p.id WHERE h.visit_date >= ?1 AND h.visit_date < ?2 ORDER BY h.visit_date";

/// Reads Chrome's visits between `?1` and `?2`, both in its own encoding,
/// as is the instant that comes out.
pub const SELECT_CHROME_SQL: &'static str =
    "SELECT u.url, u.title, v.visit_time, v.transition FROM visits v, urls u ON v.url = u.id WHERE v.visit_time >= ?1 AND v.visit_time < ?2 ORDER BY v.visit_time";

/// The code of a visit whose kind the source does not tell.
pub const UNKNOWN_VISIT_TYPE: i64 = -1;

/// The bits of Chrome's transition that say what kind of visit it was.
pub const CHROME_CORE_TRANSITION: i64 = 0xFF;

/// The family that is probed at position `i`, of three.
pub open spec fn spec_probe_order(i: int) -> SourceName
    recommends
        0 <= i < FAMILIES,
{
    if i == 0 {
        SourceName::Firefox
    } else if i == 1 {
        SourceName::Safari
    } else {
        SourceName::Chrome
    }
}

/// The text of the statement that succeeds on a file of `name`.
pub open spec fn spec_probe_sql(name: SourceName) -> Seq<char> {
    match name {
        SourceName::Firefox => PROBE_FIREFOX_SQL@,
        SourceName::Safari => PROBE_SAFARI_SQL@,
        SourceName::Chrome => PROBE_CHROME_SQL@,
    }
}

/// The text of the statement that reads the visits of a file of `name`.
pub open spec fn spec_select_sql(name: SourceName) -> Seq<char> {
    match name {
        SourceName::Firefox => SELECT_FIREFOX_SQL@,
        SourceName::Safari => SELECT_SAFARI_SQL@,
        SourceName::Chrome => SELECT_CHROME_SQL@,
    }
}

/// A bound of the window as the statement of `name` takes it: a real number
/// in thousandths for Safari, an integer for the others.
pub open spec fn spec_bound(name: SourceName, native: i64) -> SqlValueView {
    match name {
        SourceName::Safari => SqlValueView::Thousandths(native),
        _ => SqlValueView::Integer(native),
    }
}

/// The family that is probed at position `i`, of three.
pub fn probe_order(i: usize) -> (r: SourceName)
    requires
        i < FAMILIES,
    ensures
        r == spec_probe_order(i as int),
{
    if i == 0 {
        SourceName::Firefox
    } else if i == 1 {
        SourceName::Safari
    } else {
        SourceName::Chrome
    }
}

/// The statement that succeeds on a file of `name`, and fails for want of a
/// table on a file of another family.
pub fn probe_statement(name: SourceName) -> (r: Statement)
    ensures
        r@ == (StatementView { sql: spec_probe_sql(name), params: Seq::empty() }),
{
    match name {
        SourceName::Firefox => plain_statement(PROBE_FIREFOX_SQL),
        SourceName::Safari => plain_statement(PROBE_SAFARI_SQL),
        SourceName::Chrome => plain_statement(PROBE_CHROME_SQL),
    }
}

/// A history file whose family is known.
#[derive(Debug, PartialEq, Eq)]
pub struct Source {
    path: String,
    name: SourceName,
}

/// What a `Source` holds, as mathematical values.
pub struct SourceView {
    pub path: Seq<char>,
    pub name: SourceName,
}

impl View for Source {
    type V = SourceView;

    closed spec fn view(&self) -> SourceView {
        SourceView { path: self.path@, name: self.name }
    }
}

/// A row as the statement of `Source::select` returns it.
#[derive(Debug, PartialEq, Eq)]
pub struct SourceRow {
    pub url: String,
    /// `None` where the column holds no text.
    pub title: Option<String>,
    /// The instant, in microseconds: since 1601-01-01 for Chrome, since
    /// 1970-01-01 for the others.
    pub visit_time: i64,
    /// The kind of visit, as the source holds it.
    pub visit_type: i64,
}

/// What a `SourceRow` holds, as mathematical values.
pub struct SourceRowView {
    pub url: Seq<char>,
    pub title: Option<Seq<char>>,
    pub visit_time: i64,
    pub visit_type: i64,
}

impl View for SourceRow {
    type V = SourceRowView;

    open spec fn view(&self) -> SourceRowView {
        SourceRowView {
            url: self.url@,
            title: match self.title {
                Some(t) => Some(t@),
                None => None,
            },
            visit_time: self.visit_time,
            visit_type: self.visit_type,
        }
    }
}

impl Clone for SourceRow {
    fn clone(&self) -> (r: Self)
        ensures
            r@ == self@,
    {
        SourceRow {
            url: self.url.clone(),
            title: match &self.title {
                Some(t) => Some(t.clone()),
                None => None,
            },
            visit_time: self.visit_time,
            visit_type: self.visit_type,
        }
    }
}

/// The views of a sequence of rows, in the same order.
pub open spec fn row_views(rows: Seq<SourceRow>) -> Seq<SourceRowView> {
    Seq::new(rows.len(), |i: int| rows[i]@)
}

/// The canonical instant of a row of a file of `name`.
pub open spec fn spec_row_time(name: SourceName, visit_time: i64) -> int {
    match name {
        SourceName::Chrome => spec_webkit_to_ms(visit_time as int),
        _ => spec_prtime_to_ms(visit_time as int),
    }
}

/// The code of a row of a file of `name`: unknown for Safari, the core of
/// the transition for Chrome.
pub open spec fn spec_row_type(name: SourceName, visit_type: i64) -> i64 {
    match name {
        SourceName::Safari => UNKNOWN_VISIT_TYPE,
        SourceName::Firefox => visit_type,
        SourceName::Chrome => visit_type & CHROME_CORE_TRANSITION,
    }
}

/// A row of a file of `name` in canonical shape: a missing title is empty.
pub open spec fn spec_normalize(name: SourceName, row: SourceRowView) -> VisitDetailView {
    VisitDetailView {
        url: row.url,
        title: match row.title {
            Some(t) => t,
            None => Seq::empty(),
        },
        visit_time: spec_row_time(name, row.visit_time) as i64,
        visit_type: spec_row_type(name, row.visit_type),
    }
}

/// The rows of a file of `name` in canonical shape, in the same order.
pub open spec fn spec_normalize_all(name: SourceName, rows: Seq<SourceRowView>) -> Seq<
    VisitDetailView,
> {
    Seq::new(rows.len(), |i: int| spec_normalize(name, rows[i]))
}

/// The statement that reads the visits of a file of `name` whose instant is
/// at or after `inclusive_start` and before `exclusive_end`, oldest first.
pub open spec fn spec_select(
    name: SourceName,
    inclusive_start: i64,
    exclusive_end: i64,
) -> StatementView {
    StatementView {
        sql: spec_select_sql(name),
        params: seq![
            spec_bound(name, spec_canonical_to_native(name, inclusive_start as int) as i64),
            spec_bound(name, spec_canonical_to_native(name, exclusive_end as int) as i64),
        ],
    }
}

/// A row of a file of `name` in canonical shape.
pub fn normalize(name: SourceName, row: SourceRow) -> (r: VisitDetail)
    ensures
        r@ == spec_normalize(name, row@),
{
    let visit_time = match name {
        SourceName::Chrome => webkit_to_unixepoch_ms(row.visit_time),
        _ => prtime_to_unixepoch_ms(row.visit_time),
    };
    let visit_type = match name {
        SourceName::Safari => UNKNOWN_VISIT_TYPE,
        SourceName::Firefox => row.visit_type,
        SourceName::Chrome => row.visit_type & CHROME_CORE_TRANSITION,
    };
    let title = match row.title {
        Some(t) => t,
        None => String::new(),
    };
    VisitDetail { url: row.url, title, visit_time, visit_type }
}

impl Source {
    /// The family that wrote the file.
    pub fn name(&self) -> (r: SourceName)
        ensures
            r == self@.name,
    {
        self.name
    }

    /// The path of the file.
    pub fn path(&self) -> (r: &str)
        ensures
            r@ == self@.path,
    {
        self.path.as_str()
    }

    /// The statement that reads the visits whose instant is at or after
    /// `inclusive_start` and before `exclusive_end`, oldest first. Each row
    /// of its result holds the URL, the title, the instant and the kind of a
    /// visit. Fails with `ConversionOverflow` where a bound has no encoding
    /// in the family of the file.
    pub fn select(&self, inclusive_start: i64, exclusive_end: i64) -> (r: Result<
        Statement,
        HistoryError,
    >)
        ensures
            r is Ok <==> fits_i64(spec_canonical_to_native(self@.name, inclusive_start as int))
                && fits_i64(spec_canonical_to_native(self@.name, exclusive_end as int)),
            r matches Ok(statement) ==> statement@ == spec_select(
                self@.name,
                inclusive_start,
                exclusive_end,
            ),
            r matches Err(e) ==> e@ is ConversionOverflow,
    {
        match self.name {
            SourceName::Safari => self.select_safari(inclusive_start, exclusive_end),
            SourceName::Firefox => self.select_firefox(inclusive_start, exclusive_end),
            SourceName::Chrome => self.select_chrome(inclusive_start, exclusive_end),
        }
    }

    fn select_safari(&self, start: i64, end: i64) -> (r: Result<Statement, HistoryError>)
        ensures
            select_result(SourceName::Safari, start, end, r),
    {
        select_inner(SourceName::Safari, SELECT_SAFARI_SQL, start, end)
    }

    fn select_firefox(&self, start: i64, end: i64) -> (r: Result<Statement, HistoryError>)
        ensures
            select_result(SourceName::Firefox, start, end, r),
    {
        select_inner(SourceName::Firefox, SELECT_FIREFOX_SQL, start, end)
    }

    fn select_chrome(&self, start: i64, end: i64) -> (r: Result<Statement, HistoryError>)
        ensures
            select_result(SourceName::Chrome, start, end, r),
    {
        select_inner(SourceName::Chrome, SELECT_CHROME_SQL, start, end)
    }

    /// The rows that the statement of `select` returned, in canonical shape
    /// and in the same order.
    pub fn visits(&self, rows: Vec<SourceRow>) -> (r: Vec<VisitDetail>)
        ensures
            visit_views(r@) == spec_normalize_all(self@.name, row_views(rows@)),
    {
        normalize_rows(self.name, rows)
    }
}

/// The rows of a file of `name` in canonical shape and in the same order.
pub fn normalize_rows(name: SourceName, rows: Vec<SourceRow>) -> (r: Vec<VisitDetail>)
    ensures
        visit_views(r@) == spec_normalize_all(name, row_views(rows@)),
{
    let ghost all = row_views(rows@);
    let mut out: Vec<VisitDetail> = Vec::new();
    for row in it: rows
        invariant
            out@.len() == it.index(),
            it.seq().len() == all.len(),
            forall|i: int| 0 <= i < it.seq().len() ==> (#[trigger] it.seq()[i])@ == all[i],
            forall|i: int|
                0 <= i < out@.len() ==> (#[trigger] out@[i])@ == spec_normalize(name, all[i]),
    {
        out.push(normalize(name, row));
    }
    proof {
        assert(visit_views(out@) =~= spec_normalize_all(name, all));
    }
    out
}

/// What `select` returns for a file of `name`.
pub open spec fn select_result(
    name: SourceName,
    start: i64,
    end: i64,
    r: Result<Statement, HistoryError>,
) -> bool {
    &&& r is Ok <==> fits_i64(spec_canonical_to_native(name, start as int)) && fits_i64(
        spec_canonical_to_native(name, end as int),
    )
    &&& r matches Ok(statement) ==> statement@ == spec_select(name, start, end)
    &&& r matches Err(e) ==> e@ is ConversionOverflow
}

fn select_inner(name: SourceName, sql_tmpl: &str, start: i64, end: i64) -> (r: Result<
    Statement,
    HistoryError,
>)
    requires
        sql_tmpl@ == spec_select_sql(name),
    ensures
        select_result(name, start, end, r),
{
    let from = match canonical_to_native(name, start) {
        Ok(v) => v,
        Err(e) => {
            return Err(e);
        },
    };
    let to = match canonical_to_native(name, end) {
        Ok(v) => v,
        Err(e) => {
            return Err(e);
        },
    };
    let mut params: Vec<SqlValue> = Vec::new();
    params.push(bound(name, from));
    params.push(bound(name, to));
    let statement = Statement { sql: String::from_str(sql_tmpl), params };
    assert(statement@.params =~= spec_select(name, start, end).params);
    Ok(statement)
}

fn bound(name: SourceName, native: i64) -> (r: SqlValue)
    ensures
        r@ == spec_bound(name, native),
{
    match name {
        SourceName::Safari => SqlValue::Thousandths(native),
        _ => SqlValue::Integer(native),
    }
}

/// A row that the statement of a Firefox or Chrome file lets through lies in
/// the window that was asked for: its canonical instant is at or after the
/// start and before the end.
pub proof fn lemma_row_in_window(name: SourceName, start: int, end: int, native: int)
    requires
        !(name is Safari),
        spec_canonical_to_native(name, start) <= native < spec_canonical_to_native(name, end),
    ensures
        start <= spec_native_to_canonical(name, native) < end,
{
}

/// Rows that come oldest first give visits that come oldest first.
pub proof fn lemma_rows_keep_order(name: SourceName, earlier: i64, later: i64)
    requires
        earlier <= later,
    ensures
        spec_row_time(name, earlier) <= spec_row_time(name, later),
{
}


/// The number of families that are probed.
pub const FAMILIES: usize = 3;

/// What the opening of a source asks for next, or how it ended.
#[derive(Debug, PartialEq, Eq)]
pub enum OpenStep {
    Run(Statement),
    Done(Result<Source, HistoryError>),
}

/// What an `OpenStep` holds, as mathematical values.
pub enum OpenStepView {
    Run(StatementView),
    Done(Result<SourceView, HistoryErrorView>),
}

impl View for OpenStep {
    type V = OpenStepView;

    open spec fn view(&self) -> OpenStepView {
        match self {
            OpenStep::Run(statement) => OpenStepView::Run(statement@),
            OpenStep::Done(Ok(source)) => OpenStepView::Done(Ok(source@)),
            OpenStep::Done(Err(e)) => OpenStepView::Done(Err(e@)),
        }
    }
}

/// The state of the opening of a source, as mathematical values.
pub struct OpenView {
    pub path: Seq<char>,
    /// Zero while the journal mode is being set; afterwards one more than
    /// the position of the family that is being probed. Larger than the
    /// number of families once the opening is over.
    pub asked: nat,
}

/// The statement without parameters whose text is `sql`.
pub open spec fn spec_plain(sql: Seq<char>) -> StatementView {
    StatementView { sql, params: Seq::empty() }
}

impl OpenView {
    /// The first state, in which the journal mode is being set.
    pub open spec fn start(path: Seq<char>) -> (OpenView, OpenStepView) {
        (OpenView { path, asked: 0 }, OpenStepView::Run(spec_plain(JOURNAL_MODE_SQL@)))
    }

    /// The opening ends with `result`.
    pub open spec fn end(self, result: Result<SourceView, HistoryErrorView>) -> (
        OpenView,
        OpenStepView,
    ) {
        (OpenView { asked: FAMILIES as nat + 1, ..self }, OpenStepView::Done(result))
    }

    /// The state after `reply`, and what the opening asks for next. The
    /// first probe that does not fail tells the family. A probe that fails
    /// for want of its table is followed by the next one, and the last one
    /// by `UnrecognizedSource`. Any other failure ends the opening.
    pub open spec fn step(self, reply: SqlReplyView) -> (OpenView, OpenStepView) {
        if self.asked > FAMILIES {
            self.end(Err(HistoryErrorView::StorageFault { message: OPENING_OVER@ }))
        } else if self.asked == 0 {
            match reply {
                Ok(_) => (
                    OpenView { asked: 1, ..self },
                    OpenStepView::Run(spec_plain(spec_probe_sql(spec_probe_order(0)))),
                ),
                Err(e) => self.end(Err(spec_source_failure(e))),
            }
        } else {
            match reply {
                Ok(_) => self.end(
                    Ok(SourceView { path: self.path, name: spec_probe_order(self.asked - 1) }),
                ),
                Err(e) => if !spec_is_missing_table(e) {
                    self.end(Err(spec_source_failure(e)))
                } else if self.asked < FAMILIES {
                    (
                        OpenView { asked: self.asked + 1, ..self },
                        OpenStepView::Run(
                            spec_plain(spec_probe_sql(spec_probe_order(self.asked as int))),
                        ),
                    )
                } else {
                    self.end(Err(HistoryErrorView::UnrecognizedSource))
                },
            }
        }
    }
}

/// The text of the failure where an opening that is over is given a reply.
pub const OPENING_OVER: &'static str = "the source is open already";

/// The opening of a history file: the journal mode is set, and the families
/// are probed in turn. It is made by `Source::open`, and driven by handing
/// the reply to each statement to `advance` until that returns
/// `OpenStep::Done`.
#[derive(Debug)]
pub struct OpenRun {
    path: String,
    asked: usize,
}

impl View for OpenRun {
    type V = OpenView;

    closed spec fn view(&self) -> OpenView {
        OpenView { path: self.path@, asked: self.asked as nat }
    }
}

impl OpenRun {
    #[verifier::type_invariant]
    spec fn bounded(self) -> bool {
        self.asked <= FAMILIES + 1
    }

    /// Which family wrote the file that the probes were run on.
    fn detect_name(self, reply: SqlReply) -> (r: (OpenRun, OpenStep))
        requires
            1 <= self.asked <= FAMILIES,
        ensures
            (r.0@, r.1@) == self@.step(reply_view(reply)),
    {
        match reply {
            Ok(_) => {
                let name = probe_order(self.asked - 1);
                let source = Source { path: self.path.clone(), name };
                (OpenRun { path: self.path, asked: FAMILIES + 1 }, OpenStep::Done(Ok(source)))
            },
            Err(e) => {
                if !is_missing_table(&e) {
                    (
                        OpenRun { path: self.path, asked: FAMILIES + 1 },
                        OpenStep::Done(Err(source_failure(e))),
                    )
                } else if self.asked < FAMILIES {
                    let next = probe_statement(probe_order(self.asked));
                    (OpenRun { path: self.path, asked: self.asked + 1 }, OpenStep::Run(next))
                } else {
                    (
                        OpenRun { path: self.path, asked: FAMILIES + 1 },
                        OpenStep::Done(Err(HistoryError::UnrecognizedSource)),
                    )
                }
            },
        }
    }

    /// Takes the reply to the statement that the opening asked for last, and
    /// returns what it asks for next, or how it ended. An opening that is
    /// over fails.
    pub fn advance(self, reply: SqlReply) -> (r: (OpenRun, OpenStep))
        ensures
            (r.0@, r.1@) == self@.step(reply_view(reply)),
    {
        proof {
            use_type_invariant(&self);
        }
        if self.asked > FAMILIES {
            (
                OpenRun { path: self.path, asked: FAMILIES + 1 },
                OpenStep::Done(
                    Err(HistoryError::StorageFault { message: String::from_str(OPENING_OVER) }),
                ),
            )
        } else if self.asked == 0 {
            match reply {
                Ok(_) => (
                    OpenRun { path: self.path, asked: 1 },
                    OpenStep::Run(probe_statement(probe_order(0))),
                ),
                Err(e) => (
                    OpenRun { path: self.path, asked: FAMILIES + 1 },
                    OpenStep::Done(Err(source_failure(e))),
                ),
            }
        } else {
            self.detect_name(reply)
        }
    }
}

impl Source {
    /// Begins the opening of the history file at `path`, which the caller
    /// has opened for reading only, and returns it with the statement that
    /// it asks for first.
    pub fn open(path: String) -> (r: (OpenRun, Statement))
        ensures
            (r.0@, OpenStepView::Run(r.1@)) == OpenView::start(path@),
    {
        (OpenRun { path, asked: 0 }, plain_statement(JOURNAL_MODE_SQL))
    }
}

/// How the opening of the file at `path` ends, given the reply to the
/// setting of the journal mode and the replies that the three probes get or
/// would get, in the order of the probes.
pub open spec fn spec_open_outcome(
    path: Seq<char>,
    journal: SqlReplyView,
    probes: Seq<SqlReplyView>,
) -> Result<SourceView, HistoryErrorView> {
    match journal {
        Err(e) => Err(spec_source_failure(e)),
        Ok(_) => spec_detect(path, probes, 0),
    }
}

/// How the probing ends from the probe at position `from` on.
pub open spec fn spec_detect(path: Seq<char>, probes: Seq<SqlReplyView>, from: int) -> Result<
    SourceView,
    HistoryErrorView,
>
    decreases FAMILIES - from,
{
    if from < 0 || from >= FAMILIES {
        Err(HistoryErrorView::UnrecognizedSource)
    } else {
        match probes[from] {
            Ok(_) => Ok(SourceView { path, name: spec_probe_order(from) }),
            Err(e) => if spec_is_missing_table(e) {
                spec_detect(path, probes, from + 1)
            } else {
                Err(spec_source_failure(e))
            },
        }
    }
}

/// How an opening ends from the state `open`, where the statements that it
/// asks for get the replies `probes`.
pub open spec fn spec_run_open(open: OpenView, probes: Seq<SqlReplyView>) -> Result<
    SourceView,
    HistoryErrorView,
>
    decreases FAMILIES + 1 - open.asked,
{
    if open.asked < 1 || open.asked > FAMILIES {
        Err(HistoryErrorView::StorageFault { message: OPENING_OVER@ })
    } else {
        match open.step(probes[open.asked - 1]) {
            (_, OpenStepView::Done(result)) => result,
            (next, OpenStepView::Run(_)) => if next.asked > open.asked {
                spec_run_open(next, probes)
            } else {
                Err(HistoryErrorView::StorageFault { message: OPENING_OVER@ })
            },
        }
    }
}

/// An opening probes the families in order and ends as the first probe
/// decides that does not fail for want of its table.
pub proof fn lemma_open_detects(open: OpenView, probes: Seq<SqlReplyView>)
    requires
        1 <= open.asked <= FAMILIES,
        probes.len() == FAMILIES,
    ensures
        spec_run_open(open, probes) == spec_detect(open.path, probes, open.asked - 1),
    decreases FAMILIES - open.asked,
{
    reveal_with_fuel(spec_detect, 2);
    let (next, step) = open.step(probes[open.asked - 1]);
    if let OpenStepView::Run(_) = step {
        lemma_open_detects(next, probes);
    }
}

/// A file that holds none of the three tables is not recognized, and the
/// opening runs no statement on it but the setting of the journal mode and
/// the three probes, which read.
pub proof fn lemma_unrecognized_source(
    path: Seq<char>,
    journal: SqlReplyView,
    probes: Seq<SqlReplyView>,
)
    requires
        journal is Ok,
        probes.len() == FAMILIES,
        forall|i: int|
            0 <= i < FAMILIES ==> (#[trigger] probes[i]) is Err && spec_is_missing_table(
                probes[i]->Err_0,
            ),
    ensures
        spec_open_outcome(path, journal, probes) == Err::<SourceView, HistoryErrorView>(
            HistoryErrorView::UnrecognizedSource,
        ),
        ({
            let s0 = OpenView::start(path);
            let s1 = s0.0.step(journal);
            let s2 = s1.0.step(probes[0]);
            let s3 = s2.0.step(probes[1]);
            let s4 = s3.0.step(probes[2]);
            &&& s0.1 == OpenStepView::Run(spec_plain(JOURNAL_MODE_SQL@))
            &&& s1.1 == OpenStepView::Run(spec_plain(PROBE_FIREFOX_SQL@))
            &&& s2.1 == OpenStepView::Run(spec_plain(PROBE_SAFARI_SQL@))
            &&& s3.1 == OpenStepView::Run(spec_plain(PROBE_CHROME_SQL@))
            &&& s4.1 == OpenStepView::Done(
                Err::<SourceView, HistoryErrorView>(HistoryErrorView::UnrecognizedSource),
            )
        }),
{
    reveal_with_fuel(spec_detect, 4);
    assert(probes[0] is Err && spec_is_missing_table(probes[0]->Err_0));
    assert(probes[1] is Err && spec_is_missing_table(probes[1]->Err_0));
    assert(probes[2] is Err && spec_is_missing_table(probes[2]->Err_0));
}

/// A file is not recognized only where every probe fails for want of its
/// table.
pub proof fn lemma_unrecognized_only_without_tables(path: Seq<char>, probes: Seq<SqlReplyView>)
    requires
        probes.len() == FAMILIES,
        spec_detect(path, probes, 0) == Err::<SourceView, HistoryErrorView>(
            HistoryErrorView::UnrecognizedSource,
        ),
    ensures
        forall|i: int|
            0 <= i < FAMILIES ==> (#[trigger] probes[i]) is Err && spec_is_missing_table(
                probes[i]->Err_0,
            ),
{
    reveal_with_fuel(spec_detect, 4);
}

} // verus!
