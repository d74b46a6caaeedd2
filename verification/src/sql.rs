//! The boundary to the storage engine: the statements that the library asks
//! for, and the replies and failures that come back, as plain values.
//!
//! The library performs no input or output. Each operation on a database is
//! a small state machine: it names the next statement to run, and takes the
//! engine's reply to decide what follows.

use crate::text::{contains, is_substring};
use crate::types::{HistoryError, HistoryErrorView};
use vstd::prelude::*;

verus! {

/// The result codes of the storage engine that the library tells apart.
#[derive(Debug, Clone, Copy, PartialEq, Eq, Structural)]
pub enum SqlCode {
    /// A row was refused because it holds again what may be held once.
    UniqueViolation,
    /// Another constraint refused the statement.
    ConstraintViolation,
    /// The database file is locked by another connection.
    DatabaseBusy,
    /// Any other code.
    Other,
}

/// A failure that the storage engine reported.
#[derive(Debug, PartialEq, Eq)]
pub struct SqlError {
    pub code: SqlCode,
    pub message: String,
}

/// What a `SqlError` holds, as mathematical values.
pub struct SqlErrorView {
    pub code: SqlCode,
    pub message: Seq<char>,
}

impl View for SqlError {
    type V = SqlErrorView;

    open spec fn view(&self) -> SqlErrorView {
        SqlErrorView { code: self.code, message: self.message@ }
    }
}

impl Clone for SqlError {
    fn clone(&self) -> (r: Self)
        ensures
            r@ == self@,
    {
        SqlError { code: self.code, message: self.message.clone() }
    }
}

/// A value bound to a parameter of a statement.
#[derive(Debug, PartialEq, Eq)]
pub enum SqlValue {
    Integer(i64),
    Text(String),
    /// A real number, given in thousandths.
    Thousandths(i64),
}

/// What a `SqlValue` holds, as mathematical values.
pub enum SqlValueView {
    Integer(i64),
    Text(Seq<char>),
    Thousandths(i64),
}

impl View for SqlValue {
    type V = SqlValueView;

    open spec fn view(&self) -> SqlValueView {
        match self {
            SqlValue::Integer(i) => SqlValueView::Integer(*i),
            SqlValue::Text(s) => SqlValueView::Text(s@),
            SqlValue::Thousandths(t) => SqlValueView::Thousandths(*t),
        }
    }
}

impl Clone for SqlValue {
    fn clone(&self) -> (r: Self)
        ensures
            r@ == self@,
    {
        match self {
            SqlValue::Integer(i) => SqlValue::Integer(*i),
            SqlValue::Text(s) => SqlValue::Text(s.clone()),
            SqlValue::Thousandths(t) => SqlValue::Thousandths(*t),
        }
    }
}

/// One statement with its positional parameters: `params[0]` is bound to
/// `?1`, and so on.
#[derive(Debug, PartialEq, Eq)]
pub struct Statement {
    pub sql: String,
    pub params: Vec<SqlValue>,
}

/// What a `Statement` holds, as mathematical values.
pub struct StatementView {
    pub sql: Seq<char>,
    pub params: Seq<SqlValueView>,
}

impl View for Statement {
    type V = StatementView;

    open spec fn view(&self) -> StatementView {
        StatementView {
            sql: self.sql@,
            params: Seq::new(self.params@.len(), |i: int| self.params@[i]@),
        }
    }
}

impl Clone for Statement {
    fn clone(&self) -> (r: Self)
        ensures
            r@ == self@,
    {
        let mut params: Vec<SqlValue> = Vec::new();
        let mut i: usize = 0;
        while i < self.params.len()
            invariant
                i <= self.params@.len(),
                params@.len() == i,
                forall|k: int| 0 <= k < i ==> (#[trigger] params@[k])@ == self.params@[k]@,
            decreases self.params@.len() - i,
        {
            params.push(self.params[i].clone());
            i = i + 1;
        }
        let r = Statement { sql: self.sql.clone(), params };
        assert(r@.params =~= self@.params);
        r
    }
}

/// The engine's reply to one statement: the integer in the first column of
/// the first row where there is one, or the failure.
pub type SqlReply = Result<Option<i64>, SqlError>;

/// A reply, as mathematical values.
pub type SqlReplyView = Result<Option<i64>, SqlErrorView>;

/// The view of a reply.
pub open spec fn reply_view(reply: SqlReply) -> SqlReplyView {
    match reply {
        Ok(row) => Ok(row),
        Err(e) => Err(e@),
    }
}

/// The text by which the engine says that a statement names a table that the
/// database does not hold.
pub const NO_SUCH_TABLE: &'static str = "no such table";

/// Whether a failure says that a table is missing.
pub open spec fn spec_is_missing_table(e: SqlErrorView) -> bool {
    is_substring(NO_SUCH_TABLE@, e.message)
}

/// Whether a failure says that a table is missing.
pub fn is_missing_table(e: &SqlError) -> (r: bool)
    ensures
        r == spec_is_missing_table(e@),
{
    contains(e.message.as_str(), NO_SUCH_TABLE)
}

/// The failure of a statement on a source file, as the library reports it: a
/// busy database is a locked source, all else is a storage fault.
pub open spec fn spec_source_failure(e: SqlErrorView) -> HistoryErrorView {
    if e.code is DatabaseBusy {
        HistoryErrorView::LockedSource { message: e.message }
    } else {
        HistoryErrorView::StorageFault { message: e.message }
    }
}

/// The failure of a statement on a source file, as the library reports it.
pub fn source_failure(e: SqlError) -> (r: HistoryError)
    ensures
        r@ == spec_source_failure(e@),
{
    match e.code {
        SqlCode::DatabaseBusy => HistoryError::LockedSource { message: e.message },
        _ => HistoryError::StorageFault { message: e.message },
    }
}

/// The failure of a statement on the canonical store, as the library
/// reports it.
pub open spec fn spec_store_failure(e: SqlErrorView) -> HistoryErrorView {
    HistoryErrorView::StorageFault { message: e.message }
}

/// The failure of a statement on the canonical store, as the library
/// reports it.
pub fn store_failure(e: SqlError) -> (r: HistoryError)
    ensures
        r@ == spec_store_failure(e@),
{
    HistoryError::StorageFault { message: e.message }
}

/// A statement without parameters.
pub fn plain_statement(sql: &str) -> (r: Statement)
    ensures
        r@ == (StatementView { sql: sql@, params: Seq::empty() }),
{
    let r = Statement { sql: String::from_str(sql), params: Vec::new() };
    assert(r@.params =~= Seq::empty());
    r
}

} // verus!
