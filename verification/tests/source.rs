use onehistory::source::{
    normalize, normalize_rows, probe_order, probe_statement, OpenRun, OpenStep, Source, SourceRow,
};
use onehistory::sql::{is_missing_table, source_failure, store_failure, SqlCode, SqlError, SqlReply, SqlValue, Statement};
use onehistory::types::{HistoryError, SourceName, VisitDetail};

fn plain(sql: &str) -> Statement {
    Statement { sql: sql.to_string(), params: vec![] }
}

fn fault(code: SqlCode, message: &str) -> SqlError {
    SqlError { code, message: message.to_string() }
}

fn no_table(table: &str) -> SqlReply {
    Err(fault(SqlCode::Other, &format!("no such table: {table}")))
}

/// Opens a source whose statements get `replies`, and returns the statements
/// that were asked for with the result.
fn open(path: &str, replies: Vec<SqlReply>) -> (Vec<Statement>, Result<Source, HistoryError>) {
    let (mut run, first): (OpenRun, Statement) = Source::open(path.to_string());
    let mut asked = vec![first];
    for reply in replies {
        let (next, step) = run.advance(reply);
        run = next;
        match step {
            OpenStep::Run(statement) => asked.push(statement),
            OpenStep::Done(result) => return (asked, result),
        }
    }
    panic!("the opening is not over");
}

fn known(name: SourceName) -> Source {
    let replies = match name {
        SourceName::Firefox => vec![Ok(None), Ok(Some(1))],
        SourceName::Safari => vec![Ok(None), no_table("moz_historyvisits"), Ok(Some(1))],
        SourceName::Chrome => {
            vec![Ok(None), no_table("moz_historyvisits"), no_table("history_items"), Ok(Some(1))]
        }
    };
    open("/p/file", replies).1.unwrap()
}

#[test]
fn the_journal_mode_is_set_first() {
    let (asked, result) = open("/p/places.sqlite", vec![Ok(None), Ok(Some(1))]);
    assert_eq!(
        asked,
        vec![plain("PRAGMA journal_mode = DELETE"), plain("select 1 from moz_historyvisits limit 1")]
    );
    let source = result.unwrap();
    assert_eq!(source.name(), SourceName::Firefox);
    assert_eq!(source.path(), "/p/places.sqlite");
}

#[test]
fn the_families_are_probed_in_order() {
    let (asked, result) = open(
        "History",
        vec![Ok(None), no_table("moz_historyvisits"), no_table("history_items"), Ok(Some(1))],
    );
    assert_eq!(
        asked,
        vec![
            plain("PRAGMA journal_mode = DELETE"),
            plain("select 1 from moz_historyvisits limit 1"),
            plain("select 1 from history_items limit 1"),
            plain("select 1 from visits limit 1"),
        ]
    );
    assert_eq!(result.unwrap().name(), SourceName::Chrome);
    assert_eq!(known(SourceName::Safari).name(), SourceName::Safari);
}

#[test]
fn an_empty_table_tells_the_family_too() {
    let (_, result) = open("History.db", vec![Ok(None), no_table("moz_historyvisits"), Ok(None)]);
    assert_eq!(result.unwrap().name(), SourceName::Safari);
}

#[test]
fn no_table_of_the_three_is_an_unrecognized_source() {
    let (asked, result) = open(
        "x.db",
        vec![Ok(None), no_table("moz_historyvisits"), no_table("history_items"), no_table("visits")],
    );
    assert_eq!(result, Err(HistoryError::UnrecognizedSource));
    assert_eq!(asked.len(), 4);
    assert!(asked[1..].iter().all(|s| s.sql.starts_with("select 1 from ") && s.params.is_empty()));
}

#[test]
fn another_failure_of_a_probe_ends_the_opening() {
    let (asked, result) = open(
        "x.db",
        vec![Ok(None), no_table("moz_historyvisits"), Err(fault(SqlCode::Other, "file is not a database"))],
    );
    assert_eq!(
        result,
        Err(HistoryError::StorageFault { message: "file is not a database".to_string() })
    );
    assert_eq!(asked.len(), 3);
}

#[test]
fn a_busy_file_is_a_locked_source() {
    let busy = || Err(fault(SqlCode::DatabaseBusy, "database is locked"));
    let (asked, result) = open("x.db", vec![busy()]);
    assert_eq!(result, Err(HistoryError::LockedSource { message: "database is locked".to_string() }));
    assert_eq!(asked.len(), 1);
    let (_, result) = open("x.db", vec![Ok(None), busy()]);
    assert_eq!(result, Err(HistoryError::LockedSource { message: "database is locked".to_string() }));
}

#[test]
fn a_busy_file_that_names_a_missing_table_is_locked_all_the_same() {
    let reply = Err(fault(SqlCode::DatabaseBusy, "database is locked"));
    let (_, result) = open("x.db", vec![Ok(None), no_table("moz_historyvisits"), reply]);
    assert!(result.unwrap_err().is_locked());
}

#[test]
fn an_opening_that_is_over_fails() {
    let (run, _) = Source::open("x.db".to_string());
    let (run, step) = run.advance(Err(fault(SqlCode::Other, "x")));
    assert!(matches!(step, OpenStep::Done(Err(_))));
    let (_, step) = run.advance(Ok(None));
    assert_eq!(
        step,
        OpenStep::Done(Err(HistoryError::StorageFault {
            message: "the source is open already".to_string()
        }))
    );
}

#[test]
fn failures_are_told_apart() {
    assert!(is_missing_table(&fault(SqlCode::Other, "no such table: visits")));
    assert!(is_missing_table(&fault(SqlCode::Other, "prepare: no such table: v in select 1 at offset 14")));
    assert!(!is_missing_table(&fault(SqlCode::Other, "no such column: visits")));
    assert!(!is_missing_table(&fault(SqlCode::Other, "No Such Table")));
    assert_eq!(
        source_failure(fault(SqlCode::DatabaseBusy, "m")),
        HistoryError::LockedSource { message: "m".to_string() }
    );
    assert_eq!(
        source_failure(fault(SqlCode::UniqueViolation, "m")),
        HistoryError::StorageFault { message: "m".to_string() }
    );
    assert_eq!(
        store_failure(fault(SqlCode::DatabaseBusy, "m")),
        HistoryError::StorageFault { message: "m".to_string() }
    );
}

#[test]
fn failures_have_their_text() {
    assert_eq!(
        HistoryError::UnrecognizedSource.message(),
        "No known browser, Only support Safari/Firefox/Chrome"
    );
    assert_eq!(HistoryError::ConversionOverflow.message(), "timestamp out of range");
    assert_eq!(HistoryError::LockedSource { message: "l".to_string() }.message(), "l");
    assert_eq!(HistoryError::StorageFault { message: "s".to_string() }.message(), "s");
    assert!(HistoryError::LockedSource { message: "l".to_string() }.is_locked());
    assert!(!HistoryError::StorageFault { message: "s".to_string() }.is_locked());
    assert!(!HistoryError::UnrecognizedSource.is_locked());
    assert!(!HistoryError::ConversionOverflow.is_locked());
}

#[test]
fn probes_follow_the_order() {
    assert_eq!(probe_order(0), SourceName::Firefox);
    assert_eq!(probe_order(1), SourceName::Safari);
    assert_eq!(probe_order(2), SourceName::Chrome);
    assert_eq!(probe_statement(SourceName::Chrome), plain("select 1 from visits limit 1"));
}

#[test]
fn firefox_is_read_in_its_own_encoding() {
    let statement = known(SourceName::Firefox).select(1_000, 3_000).unwrap();
    assert_eq!(statement.params, vec![SqlValue::Integer(1_000_000), SqlValue::Integer(3_000_000)]);
    assert!(statement.sql.contains("FROM moz_historyvisits h, moz_places p"));
    assert!(statement.sql.contains("h.visit_date >= ?1 AND h.visit_date < ?2"));
}

#[test]
fn chrome_is_read_in_its_own_encoding() {
    let statement = known(SourceName::Chrome).select(0, 1).unwrap();
    assert_eq!(
        statement.params,
        vec![SqlValue::Integer(11_644_473_600_000_000), SqlValue::Integer(11_644_473_600_001_000)]
    );
    assert!(statement.sql.contains("v.visit_time >= ?1 AND v.visit_time < ?2"));
}

#[test]
fn safari_is_read_in_seconds_since_2001() {
    let statement = known(SourceName::Safari).select(978_307_200_000, 978_307_201_500).unwrap();
    assert_eq!(statement.params, vec![SqlValue::Thousandths(0), SqlValue::Thousandths(1_500)]);
    assert!(statement.sql.contains("hv.visit_time >= ?1 AND hv.visit_time < ?2"));
}

#[test]
fn a_bound_without_encoding_is_an_overflow() {
    assert_eq!(
        known(SourceName::Firefox).select(0, i64::MAX),
        Err(HistoryError::ConversionOverflow)
    );
    assert_eq!(
        known(SourceName::Chrome).select(i64::MIN, 0),
        Err(HistoryError::ConversionOverflow)
    );
    assert_eq!(known(SourceName::Safari).select(i64::MIN, 0), Err(HistoryError::ConversionOverflow));
    assert!(known(SourceName::Safari).select(0, i64::MAX).is_ok());
}

fn row(url: &str, title: Option<&str>, visit_time: i64, visit_type: i64) -> SourceRow {
    SourceRow { url: url.to_string(), title: title.map(|t| t.to_string()), visit_time, visit_type }
}

fn visit(url: &str, title: &str, visit_time: i64, visit_type: i64) -> VisitDetail {
    VisitDetail { url: url.to_string(), title: title.to_string(), visit_time, visit_type }
}

#[test]
fn rows_become_visits() {
    assert_eq!(
        normalize(SourceName::Firefox, row("u", Some("t"), 1_650_000_000_123_456, 3)),
        visit("u", "t", 1_650_000_000_123, 3)
    );
    assert_eq!(
        normalize(SourceName::Safari, row("u", None, 1_650_000_000_123_456, 3)),
        visit("u", "", 1_650_000_000_123, -1)
    );
    assert_eq!(
        normalize(SourceName::Chrome, row("u", Some(""), 13_294_473_600_123_456, 0x3000_0107)),
        visit("u", "", 1_650_000_000_123, 7)
    );
    assert_eq!(
        normalize(SourceName::Chrome, row("u", None, 0, -1)),
        visit("u", "", -11_644_473_600_000, 255)
    );
}

#[test]
fn rows_keep_their_order() {
    let rows = vec![row("a", None, 3_000, 1), row("b", Some("B"), 1_000, 2), row("c", None, 2_000, 3)];
    assert_eq!(
        normalize_rows(SourceName::Firefox, rows),
        vec![visit("a", "", 3, 1), visit("b", "B", 1, 2), visit("c", "", 2, 3)]
    );
    assert_eq!(normalize_rows(SourceName::Chrome, vec![]), vec![]);
    let rows = vec![row("a", None, 3_000, 1)];
    assert_eq!(known(SourceName::Firefox).visits(rows), vec![visit("a", "", 3, 1)]);
}
