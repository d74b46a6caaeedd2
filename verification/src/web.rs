//! What the pages of the dashboard show: the window of each page, and the
//! reply to a request that was turned down.

use crate::text::{chars_of, contains, is_substring};
use crate::types::{ClientError, ErrorMessage, ServerError};
use crate::util::DAY_MS;
use vstd::prelude::*;

verus! {

/// The step from a directory to the one above it, which no name of a file
/// of the dashboard may hold.
pub const PARENT: &'static str = "..";

/// The character that separates the directories of a path.
pub const SEPARATOR: char = '/';

/// Whether `name` stays below the directory of the dashboard's files: it
/// does not begin at the root, and nowhere steps up.
pub open spec fn spec_is_plain_asset(name: Seq<char>) -> bool {
    &&& !(name.len() > 0 && name[0] == SEPARATOR)
    &&& !is_substring(PARENT@, name)
}

/// Whether `name` names a file below the directory of the dashboard's
/// files.
pub fn is_plain_asset(name: &str) -> (r: bool)
    ensures
        r == spec_is_plain_asset(name@),
{
    let letters = chars_of(name);
    if letters.len() > 0 && letters[0] == SEPARATOR {
        false
    } else {
        !contains(name, PARENT)
    }
}

/// The length of the window that the overview shows where the request
/// names no start: thirty days.
pub const DEFAULT_SEARCH_INTERVAL: i64 = 3_600_000 * 24 * 30;

/// The status of a reply where no page answers to the path.
pub const NOT_FOUND: u16 = 404;

/// The status of a reply where the request was at fault.
pub const BAD_REQUEST: u16 = 400;

/// The status of a reply where the server failed.
pub const INTERNAL_SERVER_ERROR: u16 = 500;

/// The window of the page for the day that began at `day_midnight`: the day
/// and the midnight that ends it.
pub fn details_window(day_midnight: i64) -> (r: (i64, i64))
    requires
        day_midnight + DAY_MS <= i64::MAX,
    ensures
        r.0 == day_midnight,
        r.1 == day_midnight + DAY_MS,
{
    (day_midnight, day_midnight + DAY_MS)
}

/// The window of the overview: from `start` to `end` where the request
/// names them; else it ends with the last millisecond of today and begins
/// thirty days before `tomorrow_midnight`, the midnight that ends today.
pub fn index_window(start: Option<i64>, end: Option<i64>, tomorrow_midnight: i64) -> (r: (
    i64,
    i64,
))
    requires
        start is None ==> tomorrow_midnight - DEFAULT_SEARCH_INTERVAL >= i64::MIN,
        end is None ==> tomorrow_midnight - 1 >= i64::MIN,
    ensures
        r.0 == match start {
            Some(s) => s as int,
            None => tomorrow_midnight - DEFAULT_SEARCH_INTERVAL,
        },
        r.1 == match end {
            Some(e) => e as int,
            None => tomorrow_midnight - 1,
        },
{
    let end = match end {
        Some(e) => e,
        None => tomorrow_midnight - 1,
    };
    let start = match start {
        Some(s) => s,
        None => tomorrow_midnight - DEFAULT_SEARCH_INTERVAL,
    };
    (start, end)
}

/// Why a request was turned down.
#[derive(Debug)]
pub enum Rejection {
    /// No page answers to the path.
    NotFound,
    /// The server failed.
    Server(ServerError),
    /// The request was at fault.
    Client(ClientError),
    /// Any other reason.
    Unhandled,
}

/// The status code of the reply to a request that was turned down.
pub open spec fn spec_rejection_code(err: Rejection) -> u16 {
    match err {
        Rejection::NotFound => NOT_FOUND,
        Rejection::Server(_) => INTERNAL_SERVER_ERROR,
        Rejection::Client(_) => BAD_REQUEST,
        Rejection::Unhandled => INTERNAL_SERVER_ERROR,
    }
}

/// The text of the reply to a request that was turned down.
pub open spec fn spec_rejection_message(err: Rejection) -> Seq<char> {
    match err {
        Rejection::NotFound => "NOT_FOUND"@,
        Rejection::Server(e) => e.e@,
        Rejection::Client(e) => e.e@,
        Rejection::Unhandled => "UNHANDLED_REJECTION"@,
    }
}

/// The reply to a request that was turned down: its status code and text.
pub fn handle_rejection(err: Rejection) -> (r: ErrorMessage)
    ensures
        r.code == spec_rejection_code(err),
        r.message@ == spec_rejection_message(err),
{
    match err {
        Rejection::NotFound => ErrorMessage {
            code: NOT_FOUND,
            message: String::from_str("NOT_FOUND"),
        },
        Rejection::Server(ServerError { e }) => ErrorMessage {
            code: INTERNAL_SERVER_ERROR,
            message: e,
        },
        Rejection::Client(ClientError { e }) => ErrorMessage { code: BAD_REQUEST, message: e },
        Rejection::Unhandled => ErrorMessage {
            code: INTERNAL_SERVER_ERROR,
            message: String::from_str("UNHANDLED_REJECTION"),
        },
    }
}

/// Whether a reply with the status code `code` is worth a line in the log:
/// every one but that a page was not found.
pub fn is_logged(code: u16) -> (r: bool)
    ensures
        r == (code != NOT_FOUND),
{
    code != NOT_FOUND
}

} // verus!
