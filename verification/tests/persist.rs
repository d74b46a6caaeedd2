use onehistory::database::{Database, PersistRun, PersistStep, StoreCommand};
use onehistory::sql::{SqlCode, SqlError, SqlReply, SqlValue, Statement};
use onehistory::types::{HistoryError, HistoryVisit, VisitDetail};
use std::collections::HashMap;

fn visit(url: &str, title: &str, visit_time: i64, visit_type: i64) -> VisitDetail {
    VisitDetail { url: url.to_string(), title: title.to_string(), visit_time, visit_type }
}

fn database(batch: usize) -> Database {
    Database::open("store.db".to_string()).with_batch_size(batch).unwrap()
}

fn fault(code: SqlCode, message: &str) -> SqlError {
    SqlError { code, message: message.to_string() }
}

/// A store in memory that answers as the schema asks, and fails where told.
struct Fake {
    urls: HashMap<String, (i64, String)>,
    last_id: i64,
    visits: HashMap<(i64, i64), i64>,
    watermarks: HashMap<String, i64>,
    saved: Option<(HashMap<(i64, i64), i64>, HashMap<String, i64>)>,
    log: Vec<StoreCommand>,
    fail_at: Option<(usize, SqlError)>,
}

impl Fake {
    fn new() -> Fake {
        Fake {
            urls: HashMap::new(),
            last_id: 0,
            visits: HashMap::new(),
            watermarks: HashMap::new(),
            saved: None,
            log: Vec::new(),
            fail_at: None,
        }
    }

    fn respond(&mut self, command: StoreCommand) -> SqlReply {
        let position = self.log.len();
        let reply = match &self.fail_at {
            Some((at, e)) if *at == position => {
                Err(SqlError { code: e.code, message: e.message.clone() })
            }
            _ => self.apply(&command),
        };
        self.log.push(command);
        reply
    }

    fn apply(&mut self, command: &StoreCommand) -> SqlReply {
        match command {
            StoreCommand::FindUrl { url } => Ok(self.urls.get(url).map(|row| row.0)),
            StoreCommand::AddUrl { url, title } => {
                if self.urls.contains_key(url) {
                    return Err(fault(SqlCode::UniqueViolation, "UNIQUE constraint failed"));
                }
                self.last_id += 1;
                self.urls.insert(url.clone(), (self.last_id, title.clone()));
                Ok(None)
            }
            StoreCommand::Begin => {
                self.saved = Some((self.visits.clone(), self.watermarks.clone()));
                Ok(None)
            }
            StoreCommand::AddVisit { visit } => {
                let key = (visit.item_id, visit.visit_time);
                if self.visits.contains_key(&key) {
                    return Err(fault(SqlCode::UniqueViolation, "UNIQUE constraint failed"));
                }
                self.visits.insert(key, visit.visit_type);
                Ok(None)
            }
            StoreCommand::SetWatermark { path, last_import } => {
                self.watermarks.insert(path.clone(), *last_import);
                Ok(None)
            }
            StoreCommand::Commit => {
                self.saved = None;
                Ok(None)
            }
            StoreCommand::Rollback => {
                let (visits, watermarks) = self.saved.take().unwrap();
                self.visits = visits;
                self.watermarks = watermarks;
                Ok(None)
            }
        }
    }
}

fn drive(fake: &mut Fake, start: (PersistRun, PersistStep)) -> Result<(usize, usize), HistoryError> {
    let (mut run, mut step) = start;
    loop {
        match step {
            PersistStep::Done(result) => {
                assert!(run.is_finished());
                return result;
            }
            PersistStep::Run(command) => {
                assert!(!run.is_finished());
                let reply = fake.respond(command);
                (run, step) = run.advance(reply);
            }
        }
    }
}

fn persist(fake: &mut Fake, batch: usize, path: &str, visits: Vec<VisitDetail>) -> Result<(usize, usize), HistoryError> {
    let db = database(batch);
    drive(fake, db.persist(path, visits))
}

/// A run that is taken through its steps one reply at a time.
struct Stepper(Option<PersistRun>);

impl Stepper {
    fn advance(&mut self, reply: SqlReply) -> PersistStep {
        let (run, step) = self.0.take().unwrap().advance(reply);
        self.0 = Some(run);
        step
    }
}

fn find(url: &str) -> StoreCommand {
    StoreCommand::FindUrl { url: url.to_string() }
}

fn add_url(url: &str, title: &str) -> StoreCommand {
    StoreCommand::AddUrl { url: url.to_string(), title: title.to_string() }
}

fn add_visit(item_id: i64, visit_time: i64, visit_type: i64) -> StoreCommand {
    StoreCommand::AddVisit { visit: HistoryVisit { item_id, visit_time, visit_type } }
}

fn mark(path: &str, last_import: i64) -> StoreCommand {
    StoreCommand::SetWatermark { path: path.to_string(), last_import }
}

#[test]
fn no_visit_asks_for_nothing() {
    let db = database(100);
    let (run, step) = db.persist("src", vec![]);
    assert!(run.is_finished());
    assert_eq!(step, PersistStep::Done(Ok((0, 0))));
    let mut fake = Fake::new();
    assert_eq!(persist(&mut fake, 100, "src", vec![]), Ok((0, 0)));
    assert!(fake.log.is_empty());
    assert!(fake.watermarks.is_empty());
}

#[test]
fn a_finished_run_gives_its_result_again() {
    let db = database(100);
    let mut run = Stepper(Some(db.persist("src", vec![]).0));
    assert_eq!(run.advance(Ok(None)), PersistStep::Done(Ok((0, 0))));
    assert_eq!(run.advance(Err(fault(SqlCode::Other, "x"))), PersistStep::Done(Ok((0, 0))));

    let mut run = Stepper(Some(db.persist("src", vec![visit("u", "t", 1, 0)]).0));
    let failed = run.advance(Err(fault(SqlCode::Other, "disk I/O error")));
    let expected = Err(HistoryError::StorageFault { message: "disk I/O error".to_string() });
    assert_eq!(failed, PersistStep::Done(expected.clone()));
    assert_eq!(run.advance(Ok(Some(1))), PersistStep::Done(expected));
}

#[test]
fn one_visit_runs_the_whole_protocol() {
    let mut fake = Fake::new();
    let result = persist(&mut fake, 100, "/p/History", vec![visit("https://a/", "A", 1000, 7)]);
    assert_eq!(result, Ok((1, 0)));
    assert_eq!(
        fake.log,
        vec![
            find("https://a/"),
            add_url("https://a/", "A"),
            find("https://a/"),
            StoreCommand::Begin,
            add_visit(1, 1000, 7),
            mark("/p/History", 1000),
            StoreCommand::Commit,
        ]
    );
    assert_eq!(fake.urls["https://a/"], (1, "A".to_string()));
    assert_eq!(fake.visits[&(1, 1000)], 7);
    assert_eq!(fake.watermarks["/p/History"], 1000);
}

#[test]
fn batches_are_filled_before_they_are_written() {
    let mut fake = Fake::new();
    let visits = vec![
        visit("a", "", 1, 0),
        visit("b", "", 2, 0),
        visit("a", "", 3, 0),
        visit("b", "", 4, 0),
        visit("c", "", 5, 0),
    ];
    assert_eq!(persist(&mut fake, 2, "src", visits), Ok((5, 0)));
    assert_eq!(
        fake.log,
        vec![
            find("a"),
            add_url("a", ""),
            find("a"),
            find("b"),
            add_url("b", ""),
            find("b"),
            StoreCommand::Begin,
            add_visit(1, 1, 0),
            add_visit(2, 2, 0),
            mark("src", 2),
            StoreCommand::Commit,
            find("a"),
            find("b"),
            StoreCommand::Begin,
            add_visit(1, 3, 0),
            add_visit(2, 4, 0),
            mark("src", 4),
            StoreCommand::Commit,
            find("c"),
            add_url("c", ""),
            find("c"),
            StoreCommand::Begin,
            add_visit(3, 5, 0),
            mark("src", 5),
            StoreCommand::Commit,
        ]
    );
    assert_eq!(fake.watermarks["src"], 5);
}

#[test]
fn a_full_last_batch_is_written_once() {
    let mut fake = Fake::new();
    let visits = vec![visit("a", "", 1, 0), visit("a", "", 2, 0)];
    assert_eq!(persist(&mut fake, 2, "src", visits), Ok((2, 0)));
    let begins = fake.log.iter().filter(|c| **c == StoreCommand::Begin).count();
    let commits = fake.log.iter().filter(|c| **c == StoreCommand::Commit).count();
    assert_eq!((begins, commits), (1, 1));
}

#[test]
fn counts_add_up_to_the_number_of_visits() {
    for batch in [1usize, 2, 3, 7, 100] {
        let mut fake = Fake::new();
        let visits: Vec<VisitDetail> = (0..10)
            .map(|i| visit(["x", "y", "z"][i % 3], "t", (i / 2) as i64, i as i64))
            .collect();
        let (affected, duplicated) = persist(&mut fake, batch, "src", visits).unwrap();
        assert_eq!(affected + duplicated, 10);
        assert_eq!(affected, fake.visits.len());
    }
}

#[test]
fn persisting_again_stores_nothing() {
    for batch in [1usize, 3, 100] {
        let mut fake = Fake::new();
        let visits = || {
            vec![
                visit("a", "A", 10, 0),
                visit("b", "B", 10, 0),
                visit("a", "A", 20, 1),
                visit("a", "A", 10, 2),
            ]
        };
        assert_eq!(persist(&mut fake, batch, "src", visits()), Ok((3, 1)));
        let urls = fake.urls.clone();
        let stored = fake.visits.clone();
        let watermarks = fake.watermarks.clone();
        assert_eq!(persist(&mut fake, batch, "src", visits()), Ok((0, 4)));
        assert_eq!(fake.urls, urls);
        assert_eq!(fake.visits, stored);
        assert_eq!(fake.watermarks, watermarks);
    }
}

#[test]
fn the_first_title_of_a_url_stays() {
    let mut fake = Fake::new();
    let visits = vec![visit("u", "first", 1, 0), visit("u", "second", 2, 0)];
    assert_eq!(persist(&mut fake, 100, "src", visits), Ok((2, 0)));
    assert_eq!(fake.urls.len(), 1);
    assert_eq!(fake.urls["u"], (1, "first".to_string()));
    assert_eq!(persist(&mut fake, 100, "other", vec![visit("u", "third", 3, 0)]), Ok((1, 0)));
    assert_eq!(fake.urls.len(), 1);
    assert_eq!(fake.urls["u"], (1, "first".to_string()));
}

#[test]
fn the_same_url_and_instant_is_one_visit() {
    let mut fake = Fake::new();
    let visits = vec![visit("u", "t", 1000, 1), visit("u", "t", 1000, 2)];
    assert_eq!(persist(&mut fake, 100, "src", visits), Ok((1, 1)));
    assert_eq!(fake.visits.len(), 1);
    assert_eq!(fake.visits[&(1, 1000)], 1);
}

#[test]
fn the_same_instant_of_two_urls_is_two_visits() {
    let mut fake = Fake::new();
    let visits = vec![visit("u", "t", 1000, 1), visit("v", "t", 1000, 1)];
    assert_eq!(persist(&mut fake, 100, "src", visits), Ok((2, 0)));
    assert_eq!(fake.visits.len(), 2);
}

#[test]
fn the_watermark_is_the_last_instant_even_of_a_duplicate() {
    let mut fake = Fake::new();
    let visits = vec![visit("u", "t", 5, 0), visit("u", "t", 9, 0), visit("u", "t", 9, 0)];
    assert_eq!(persist(&mut fake, 100, "src", visits), Ok((2, 1)));
    assert_eq!(fake.watermarks["src"], 9);
    assert_eq!(persist(&mut fake, 100, "src", vec![visit("u", "t", 5, 0)]), Ok((0, 1)));
    assert_eq!(fake.watermarks["src"], 5);
}

#[test]
fn each_source_has_its_own_watermark() {
    let mut fake = Fake::new();
    assert_eq!(persist(&mut fake, 100, "one", vec![visit("u", "t", 5, 0)]), Ok((1, 0)));
    assert_eq!(persist(&mut fake, 100, "two", vec![visit("u", "t", 7, 0)]), Ok((1, 0)));
    assert_eq!(fake.watermarks["one"], 5);
    assert_eq!(fake.watermarks["two"], 7);
}

#[test]
fn a_failed_look_up_ends_the_run() {
    let mut fake = Fake::new();
    fake.fail_at = Some((0, fault(SqlCode::Other, "no such table: onehistory_urls")));
    let result = persist(&mut fake, 100, "src", vec![visit("u", "t", 1, 0)]);
    assert_eq!(
        result,
        Err(HistoryError::StorageFault { message: "no such table: onehistory_urls".to_string() })
    );
    assert_eq!(fake.log, vec![find("u")]);
}

#[test]
fn a_refused_url_ends_the_run() {
    let mut fake = Fake::new();
    fake.fail_at = Some((1, fault(SqlCode::UniqueViolation, "UNIQUE constraint failed")));
    let result = persist(&mut fake, 100, "src", vec![visit("u", "t", 1, 0)]);
    assert_eq!(
        result,
        Err(HistoryError::StorageFault { message: "UNIQUE constraint failed".to_string() })
    );
    assert_eq!(fake.log, vec![find("u"), add_url("u", "t")]);
}

#[test]
fn a_url_row_that_is_lost_ends_the_run() {
    let db = database(100);
    let (run, step) = db.persist("src", vec![visit("u", "t", 1, 0)]);
    let mut run = Stepper(Some(run));
    assert_eq!(step, PersistStep::Run(find("u")));
    assert_eq!(run.advance(Ok(None)), PersistStep::Run(add_url("u", "t")));
    assert_eq!(run.advance(Ok(None)), PersistStep::Run(find("u")));
    assert_eq!(
        run.advance(Ok(None)),
        PersistStep::Done(Err(HistoryError::StorageFault {
            message: "onehistory_urls: the row just added is missing".to_string()
        }))
    );
}

#[test]
fn another_constraint_is_no_duplicate() {
    let mut fake = Fake::new();
    // Commands: find, add, find, find, begin, visit (fails).
    fake.fail_at = Some((5, fault(SqlCode::ConstraintViolation, "NOT NULL constraint failed")));
    let result = persist(&mut fake, 100, "src", vec![visit("u", "t", 1, 0), visit("u", "t", 2, 0)]);
    assert_eq!(
        result,
        Err(HistoryError::StorageFault { message: "NOT NULL constraint failed".to_string() })
    );
    assert_eq!(fake.log.last(), Some(&StoreCommand::Rollback));
    assert!(fake.visits.is_empty());
}

#[test]
fn a_failed_begin_needs_no_rollback() {
    let mut fake = Fake::new();
    fake.fail_at = Some((3, fault(SqlCode::DatabaseBusy, "database is locked")));
    let result = persist(&mut fake, 100, "src", vec![visit("u", "t", 1, 0)]);
    assert_eq!(
        result,
        Err(HistoryError::StorageFault { message: "database is locked".to_string() })
    );
    assert_eq!(fake.log.last(), Some(&StoreCommand::Begin));
}

#[test]
fn a_fault_in_a_batch_rolls_the_batch_back() {
    let mut fake = Fake::new();
    let visits = vec![
        visit("a", "", 1, 0),
        visit("a", "", 2, 0),
        visit("a", "", 3, 0),
        visit("a", "", 4, 0),
    ];
    // Commands: find, add, find, find | begin, visit, visit, mark, commit |
    // find, find | begin, visit, visit (fails).
    fake.fail_at = Some((13, fault(SqlCode::Other, "disk I/O error")));
    let result = persist(&mut fake, 2, "src", visits);
    assert_eq!(result, Err(HistoryError::StorageFault { message: "disk I/O error".to_string() }));
    assert_eq!(fake.log.last(), Some(&StoreCommand::Rollback));
    assert_eq!(fake.log[fake.log.len() - 2], add_visit(1, 4, 0));
    // The first batch stays, the second is gone.
    let mut held: Vec<(i64, i64)> = fake.visits.keys().cloned().collect();
    held.sort();
    assert_eq!(held, vec![(1, 1), (1, 2)]);
    assert_eq!(fake.watermarks["src"], 2);
}

#[test]
fn a_failed_watermark_rolls_the_batch_back() {
    let mut fake = Fake::new();
    fake.fail_at = Some((5, fault(SqlCode::Other, "disk full")));
    let result = persist(&mut fake, 100, "src", vec![visit("u", "t", 1, 0)]);
    assert_eq!(result, Err(HistoryError::StorageFault { message: "disk full".to_string() }));
    assert_eq!(fake.log.last(), Some(&StoreCommand::Rollback));
    assert!(fake.visits.is_empty());
    assert!(fake.watermarks.is_empty());
    assert_eq!(fake.urls.len(), 1);
}

#[test]
fn a_failed_commit_rolls_the_batch_back() {
    let mut fake = Fake::new();
    fake.fail_at = Some((6, fault(SqlCode::Other, "disk full")));
    let result = persist(&mut fake, 100, "src", vec![visit("u", "t", 1, 0)]);
    assert_eq!(result, Err(HistoryError::StorageFault { message: "disk full".to_string() }));
    assert_eq!(fake.log.last(), Some(&StoreCommand::Rollback));
    assert_eq!(fake.log[fake.log.len() - 2], StoreCommand::Commit);
}

#[test]
fn a_failed_rollback_still_ends_with_the_first_failure() {
    let db = database(100);
    let mut run = Stepper(Some(db.persist("src", vec![visit("u", "t", 1, 0)]).0));
    assert_eq!(run.advance(Ok(Some(4))), PersistStep::Run(StoreCommand::Begin));
    assert_eq!(run.advance(Ok(None)), PersistStep::Run(add_visit(4, 1, 0)));
    assert_eq!(
        run.advance(Err(fault(SqlCode::Other, "first"))),
        PersistStep::Run(StoreCommand::Rollback)
    );
    assert_eq!(
        run.advance(Err(fault(SqlCode::Other, "second"))),
        PersistStep::Done(Err(HistoryError::StorageFault { message: "first".to_string() }))
    );
}

#[test]
fn the_default_batch_holds_a_hundred_visits() {
    let mut fake = Fake::new();
    let db = Database::open("store.db".to_string());
    assert_eq!(db.batch_size(), 100);
    assert_eq!(db.path(), "store.db");
    let visits: Vec<VisitDetail> = (0..250).map(|i| visit("u", "t", i, 0)).collect();
    assert_eq!(drive(&mut fake, db.persist("src", visits)), Ok((250, 0)));
    let commits: Vec<usize> = fake
        .log
        .iter()
        .enumerate()
        .filter(|(_, c)| **c == StoreCommand::Commit)
        .map(|(i, _)| i)
        .collect();
    assert_eq!(commits.len(), 3);
    let visits_before_first_commit = fake.log[..commits[0]]
        .iter()
        .filter(|c| matches!(c, StoreCommand::AddVisit { .. }))
        .count();
    assert_eq!(visits_before_first_commit, 100);
}

#[test]
fn a_batch_of_no_visits_is_refused() {
    assert!(Database::open("store.db".to_string()).with_batch_size(0).is_none());
    let db = Database::open("store.db".to_string()).with_batch_size(7).unwrap();
    assert_eq!(db.batch_size(), 7);
    assert_eq!(db.path(), "store.db");
}

#[test]
fn commands_become_statements() {
    let text = |s: &str| SqlValue::Text(s.to_string());
    assert_eq!(
        find("u").statement(),
        Statement {
            sql: "SELECT id FROM onehistory_urls WHERE url = ?1".to_string(),
            params: vec![text("u")]
        }
    );
    assert_eq!(
        add_url("u", "t").statement(),
        Statement {
            sql: "INSERT INTO onehistory_urls (url, title) VALUES (?1, ?2)".to_string(),
            params: vec![text("u"), text("t")]
        }
    );
    assert_eq!(
        add_visit(3, 1000, 1).statement(),
        Statement {
            sql: "INSERT INTO onehistory_visits (item_id, visit_time, visit_type) VALUES (?1, ?2, ?3)"
                .to_string(),
            params: vec![SqlValue::Integer(3), SqlValue::Integer(1000), SqlValue::Integer(1)]
        }
    );
    assert_eq!(
        mark("p", 9).statement(),
        Statement {
            sql: "INSERT INTO import_records (last_import, data_path) VALUES (?1, ?2) ON CONFLICT (data_path) DO UPDATE SET last_import = ?1"
                .to_string(),
            params: vec![SqlValue::Integer(9), text("p")]
        }
    );
    assert_eq!(StoreCommand::Begin.statement(), Statement { sql: "BEGIN".to_string(), params: vec![] });
    assert_eq!(StoreCommand::Commit.statement(), Statement { sql: "COMMIT".to_string(), params: vec![] });
    assert_eq!(
        StoreCommand::Rollback.statement(),
        Statement { sql: "ROLLBACK".to_string(), params: vec![] }
    );
}
