//! The records that travel between the source readers, the canonical store
//! and the presentation layer.

use vstd::prelude::*;

verus! {

/// The browser family that produced a history file.
#[derive(Debug, Clone, Copy, PartialEq, Eq, Structural)]
pub enum SourceName {
    Safari,
    Firefox,
    Chrome,
}

/// One visit in canonical shape, as a source reader hands it to the store.
#[derive(Debug, PartialEq, Eq)]
pub struct VisitDetail {
    pub url: String,
    /// Empty where the source holds no title.
    pub title: String,
    /// Milliseconds since 1970-01-01T00:00:00 UTC.
    pub visit_time: i64,
    /// The source's own classification code of the visit.
    pub visit_type: i64,
}

/// What a `VisitDetail` holds, as mathematical values.
pub struct VisitDetailView {
    pub url: Seq<char>,
    pub title: Seq<char>,
    pub visit_time: i64,
    pub visit_type: i64,
}

impl View for VisitDetail {
    type V = VisitDetailView;

    open spec fn view(&self) -> VisitDetailView {
        VisitDetailView {
            url: self.url@,
            title: self.title@,
            visit_time: self.visit_time,
            visit_type: self.visit_type,
        }
    }
}

impl Clone for VisitDetail {
    fn clone(&self) -> (r: Self)
        ensures
            r == *self,
    {
        VisitDetail {
            url: self.url.clone(),
            title: self.title.clone(),
            visit_time: self.visit_time,
            visit_type: self.visit_type,
        }
    }
}

/// The views of a sequence of visits, in the same order.
pub open spec fn visit_views(visits: Seq<VisitDetail>) -> Seq<VisitDetailView> {
    Seq::new(visits.len(), |i: int| visits[i]@)
}

/// A visit row of the canonical store: the page by its identifier, the
/// instant and the classification code.
#[derive(Debug, Clone, Copy, PartialEq, Eq, Structural)]
pub struct HistoryVisit {
    pub item_id: i64,
    pub visit_time: i64,
    pub visit_type: i64,
}

/// Why an import step failed.
#[derive(Debug, PartialEq, Eq)]
pub enum HistoryError {
    /// The file holds none of the tables by which a browser family is known.
    UnrecognizedSource,
    /// A timestamp left the range of a 64-bit integer while it was converted.
    ConversionOverflow,
    /// The source file is locked by another process.
    LockedSource { message: String },
    /// Any other failure of the storage layer.
    StorageFault { message: String },
}

/// What a `HistoryError` holds, as mathematical values.
pub enum HistoryErrorView {
    UnrecognizedSource,
    ConversionOverflow,
    LockedSource { message: Seq<char> },
    StorageFault { message: Seq<char> },
}

impl View for HistoryError {
    type V = HistoryErrorView;

    open spec fn view(&self) -> HistoryErrorView {
        match self {
            HistoryError::UnrecognizedSource => HistoryErrorView::UnrecognizedSource,
            HistoryError::ConversionOverflow => HistoryErrorView::ConversionOverflow,
            HistoryError::LockedSource { message } => HistoryErrorView::LockedSource {
                message: message@,
            },
            HistoryError::StorageFault { message } => HistoryErrorView::StorageFault {
                message: message@,
            },
        }
    }
}

impl Clone for HistoryError {
    fn clone(&self) -> (r: Self)
        ensures
            r@ == self@,
    {
        match self {
            HistoryError::UnrecognizedSource => HistoryError::UnrecognizedSource,
            HistoryError::ConversionOverflow => HistoryError::ConversionOverflow,
            HistoryError::LockedSource { message } => HistoryError::LockedSource {
                message: message.clone(),
            },
            HistoryError::StorageFault { message } => HistoryError::StorageFault {
                message: message.clone(),
            },
        }
    }
}

impl HistoryError {
    /// Whether the failure says that another process holds the source file,
    /// which is the one failure that a retry on a private copy can cure.
    pub fn is_locked(&self) -> (r: bool)
        ensures
            r == (self@ is LockedSource),
    {
        match self {
            HistoryError::LockedSource { .. } => true,
            _ => false,
        }
    }

    /// The descriptive text of the failure.
    pub fn message(&self) -> (r: String)
        ensures
            r@ == error_text(self@),
    {
        match self {
            HistoryError::UnrecognizedSource => String::from_str(
                "No known browser, Only support Safari/Firefox/Chrome",
            ),
            HistoryError::ConversionOverflow => String::from_str(
                "timestamp out of range",
            ),
            HistoryError::LockedSource { message } => message.clone(),
            HistoryError::StorageFault { message } => message.clone(),
        }
    }
}

/// The descriptive text that belongs to each failure.
pub open spec fn error_text(e: HistoryErrorView) -> Seq<char> {
    match e {
        HistoryErrorView::UnrecognizedSource => "No known browser, Only support Safari/Firefox/Chrome"@,
        HistoryErrorView::ConversionOverflow => "timestamp out of range"@,
        HistoryErrorView::LockedSource { message } => message,
        HistoryErrorView::StorageFault { message } => message,
    }
}

/// The query string of the page that lists one day's visits.
#[derive(Debug)]
pub struct DetailsQueryParams {
    pub keyword: Option<String>,
}

/// The query string of the overview page; both days are written `Y-m-d`.
#[derive(Debug)]
pub struct IndexQueryParams {
    pub start: Option<String>,
    pub end: Option<String>,
    pub keyword: Option<String>,
}

/// A failure that the server itself caused.
#[derive(Debug)]
pub struct ServerError {
    pub e: String,
}

/// A failure that the request caused.
#[derive(Debug)]
pub struct ClientError {
    pub e: String,
}

/// The body of an error reply.
#[derive(Debug, PartialEq, Eq)]
pub struct ErrorMessage {
    pub code: u16,
    pub message: String,
}

} // verus!
