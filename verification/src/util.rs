//! Small helpers: windows of time, and the texts that the presentation
//! layer derives from a visit.

use crate::epoch::fits_i64;
use crate::text::{is_substring, occurs_at};
use crate::types::ClientError;
use std::fmt::Write;
use vstd::prelude::*;

verus! {

/// How a day is written: year, month and day, as in `2022-01-15`.
pub const YMD_FORMAT: &'static str = "%Y-%m-%d";

/// How a time of day is written: hour, minute and second, as in `23:59:59`.
pub const HMS_FORMAT: &'static str = "%H:%M:%S";

/// How a day with a time of day is written.
pub const YMDHMS_FORMAT: &'static str = "%Y-%m-%d %H:%M:%S";

/// The text of the failure where a text is not a day.
pub const NOT_A_DAY: &'static str = "not %Y-%m-%d date";

/// The text of the failure where a day has no instant.
pub const DAY_OUT_OF_RANGE: &'static str = "date out of range";

/// The seconds from 1970-01-01T00:00:00 to the midnight that begins the day
/// which `text` names when it is read by `format`; `None` where it names no
/// day.
pub uninterp spec fn parsed_date(text: Seq<char>, format: Seq<char>) -> Option<i64>;

/// `text` read as a day with `chrono::NaiveDate::parse_from_str`, and the
/// seconds from 1970-01-01T00:00:00 to its midnight, which
/// `NaiveDate::and_time`, `NaiveDateTime::and_utc` and `DateTime::timestamp`
/// give. The result is a function of the two arguments.
#[verifier::external_body]
fn parse_date(text: &str, format: &str) -> (r: Option<i64>)
    ensures
        r == parsed_date(text@, format@),
{
    let day = chrono::NaiveDate::parse_from_str(text, format).ok()?;
    Some(day.and_time(chrono::NaiveTime::MIN).and_utc().timestamp())
}

/// How the instant `seconds` after 1970-01-01T00:00:00 is written by
/// `format`; `None` where the instant is out of the range of the calendar,
/// or where `format` is no format.
pub uninterp spec fn formatted_time(seconds: i64, format: Seq<char>) -> Option<Seq<char>>;

/// The instant `seconds` after 1970-01-01T00:00:00, which
/// `chrono::DateTime::from_timestamp` makes, written with
/// `DateTime::format`. The result is a function of the two arguments.
#[verifier::external_body]
fn format_time(seconds: i64, format: &str) -> (r: Option<String>)
    ensures
        match r {
            Some(text) => formatted_time(seconds, format@) == Some(text@),
            None => formatted_time(seconds, format@) is None,
        },
{
    let instant = chrono::DateTime::from_timestamp(seconds, 0)?;
    let mut text = String::new();
    write!(text, "{}", instant.format(format)).ok()?;
    Some(text)
}

/// The whole seconds of the instant `ts`, which counts milliseconds; the
/// fraction is dropped.
pub open spec fn spec_whole_seconds(ts: i64) -> int {
    if ts >= 0 {
        ts / 1000
    } else {
        -((-ts) / 1000)
    }
}

/// The seconds that a clock shows at the instant `ts` in a zone that is
/// `utc_offset` seconds east of UTC, counted from 1970-01-01T00:00:00.
pub open spec fn spec_local_seconds(ts: i64, utc_offset: i32) -> i64 {
    (spec_whole_seconds(ts) + utc_offset) as i64
}

/// The seconds that a clock shows at the instant `ts` in a zone that is
/// `utc_offset` seconds east of UTC.
pub fn local_seconds(ts: i64, utc_offset: i32) -> (r: i64)
    ensures
        r == spec_local_seconds(ts, utc_offset),
        r == spec_whole_seconds(ts) + utc_offset,
{
    ts / 1000 + utc_offset as i64
}

/// The day of the instant `ts` in a zone that is `utc_offset` seconds east
/// of UTC, as in `2022-01-15`; `None` where the calendar does not reach the
/// instant.
pub fn unixepoch_as_ymd(ts: i64, utc_offset: i32) -> (r: Option<String>)
    ensures
        match r {
            Some(text) => formatted_time(spec_local_seconds(ts, utc_offset), YMD_FORMAT@) == Some(
                text@,
            ),
            None => formatted_time(spec_local_seconds(ts, utc_offset), YMD_FORMAT@) is None,
        },
{
    format_time(local_seconds(ts, utc_offset), YMD_FORMAT)
}

/// The time of day of the instant `ts` in a zone that is `utc_offset`
/// seconds east of UTC, as in `23:59:59`; `None` where the calendar does not
/// reach the instant.
pub fn unixepoch_as_hms(ts: i64, utc_offset: i32) -> (r: Option<String>)
    ensures
        match r {
            Some(text) => formatted_time(spec_local_seconds(ts, utc_offset), HMS_FORMAT@) == Some(
                text@,
            ),
            None => formatted_time(spec_local_seconds(ts, utc_offset), HMS_FORMAT@) is None,
        },
{
    format_time(local_seconds(ts, utc_offset), HMS_FORMAT)
}

/// The day and the time of day of the instant `ts` in a zone that is
/// `utc_offset` seconds east of UTC; `None` where the calendar does not
/// reach the instant.
pub fn unixepoch_as_ymdhms(ts: i64, utc_offset: i32) -> (r: Option<String>)
    ensures
        match r {
            Some(text) => formatted_time(spec_local_seconds(ts, utc_offset), YMDHMS_FORMAT@)
                == Some(text@),
            None => formatted_time(spec_local_seconds(ts, utc_offset), YMDHMS_FORMAT@) is None,
        },
{
    format_time(local_seconds(ts, utc_offset), YMDHMS_FORMAT)
}

/// The instant, in milliseconds, at which a day begins in a zone that is
/// `utc_offset` seconds east of UTC, where `day_seconds` are the seconds
/// from 1970-01-01T00:00:00 to the midnight of the day.
pub open spec fn spec_midnight_in_zone(day_seconds: i64, utc_offset: i32) -> int {
    (day_seconds - utc_offset) * 1000
}

/// What `midnight_in_zone` returns for the day that was read.
pub open spec fn midnight_result(
    day: Option<i64>,
    utc_offset: i32,
    r: Result<i64, ClientError>,
) -> bool {
    match day {
        None => r matches Err(e) && e.e@ == NOT_A_DAY@,
        Some(seconds) => if fits_i64(spec_midnight_in_zone(seconds, utc_offset)) {
            r matches Ok(ms) && ms == spec_midnight_in_zone(seconds, utc_offset)
        } else {
            r matches Err(e) && e.e@ == DAY_OUT_OF_RANGE@
        },
    }
}

/// The instant at which the day that was read begins in a zone that is
/// `utc_offset` seconds east of UTC. Fails where no day was read, and where
/// the instant is out of range.
pub fn midnight_in_zone(day: Option<i64>, utc_offset: i32) -> (r: Result<i64, ClientError>)
    ensures
        midnight_result(day, utc_offset, r),
{
    match day {
        None => Err(ClientError { e: String::from_str(NOT_A_DAY) }),
        Some(seconds) => {
            let wide: i128 = (seconds as i128 - utc_offset as i128) * 1000;
            if wide < i64::MIN as i128 || wide > i64::MAX as i128 {
                Err(ClientError { e: String::from_str(DAY_OUT_OF_RANGE) })
            } else {
                Ok(wide as i64)
            }
        },
    }
}

/// The instant at which the day `ymd`, written as in `2022-01-15`, begins in
/// a zone that is `utc_offset` seconds east of UTC. Fails where `ymd` is no
/// day, and where the instant is out of range.
pub fn ymd_midnight(ymd: &str, utc_offset: i32) -> (r: Result<i64, ClientError>)
    ensures
        midnight_result(parsed_date(ymd@, YMD_FORMAT@), utc_offset, r),
{
    midnight_in_zone(parse_date(ymd, YMD_FORMAT), utc_offset)
}

/// The seconds from 1970-01-01T00:00:00 to the midnight that begins the day
/// `ymd`, written as in `2022-01-15`; `None` where `ymd` is no day.
pub fn ymd_seconds(ymd: &str) -> (r: Option<i64>)
    ensures
        r == parsed_date(ymd@, YMD_FORMAT@),
{
    parse_date(ymd, YMD_FORMAT)
}

/// Finds the host of a URL: what stands between `://` and the next slash.
pub const DOMAIN_PATTERN: &'static str = "://(.+?)/";

/// What group `group` of the first match of the regular expression
/// `pattern` in `haystack` holds; `None` where `pattern` is no regular
/// expression, where nothing matches, or where the group took no part.
pub uninterp spec fn regex_capture(pattern: Seq<char>, group: usize, haystack: Seq<char>) -> Option<
    Seq<char>,
>;

/// Compiles `pattern` with `regex::Regex::new`, searches `haystack` with
/// `Regex::captures`, and takes the text of group `group` with
/// `Captures::get` and `Match::as_str`. The result is a function of the
/// three arguments, and a group that matched holds a part of the haystack.
#[verifier::external_body]
fn first_capture(pattern: &str, group: usize, haystack: &str) -> (r: Option<String>)
    ensures
        match r {
            Some(found) => regex_capture(pattern@, group, haystack@) == Some(found@)
                && is_substring(found@, haystack@),
            None => regex_capture(pattern@, group, haystack@) is None,
        },
{
    let re = regex::Regex::new(pattern).ok()?;
    let found = re.captures(haystack)?;
    found.get(group).map(|m| m.as_str().to_string())
}

/// The host that was found in a URL, or the URL itself where none was.
pub fn domain_or_url(found: Option<String>, url: String) -> (r: String)
    ensures
        r@ == match found {
            Some(host) => host@,
            None => url@,
        },
{
    match found {
        Some(host) => host,
        None => url,
    }
}

/// The host of `url`, or `url` itself where it names none.
pub open spec fn spec_domain_from(url: Seq<char>) -> Seq<char> {
    match regex_capture(DOMAIN_PATTERN@, 1, url) {
        Some(host) => host,
        None => url,
    }
}

/// The host of `url`: what stands between the first `://` and the slash
/// that follows it, or `url` itself where it holds no such part.
pub fn domain_from(url: String) -> (r: String)
    ensures
        r@ == spec_domain_from(url@),
        is_substring(r@, url@),
{
    let found = first_capture(DOMAIN_PATTERN, 1, url.as_str());
    proof {
        assert(occurs_at(url@, url@, 0)) by {
            assert(url@.subrange(0, url@.len() as int) =~= url@);
        }
    }
    domain_or_url(found, url)
}

/// The browsers whose history files are looked for.
#[derive(Debug, Clone, Copy, PartialEq, Eq, Structural)]
pub enum Browser {
    Safari,
    Chrome,
    Firefox,
    Brave,
}

/// The systems on which history files are looked for.
#[derive(Debug, Clone, Copy, PartialEq, Eq, Structural)]
pub enum Platform {
    Linux,
    Macos,
    Windows,
}

/// Where `browser` keeps its history files on `platform`, as a pattern below
/// the home directory in which `*` stands for any profile; `None` where the
/// browser does not run on the platform.
pub open spec fn spec_default_profile(browser: Browser, platform: Platform) -> Option<Seq<char>> {
    match (browser, platform) {
        (Browser::Chrome, Platform::Linux) => Some(".config/google-chrome/*/History"@),
        (Browser::Chrome, Platform::Macos) => Some(
            "Library/Application Support/Google/Chrome/*/History"@,
        ),
        (Browser::Chrome, Platform::Windows) => Some(
            "AppData/Local/Google/Chrome/User Data/*/History"@,
        ),
        (Browser::Firefox, Platform::Linux) => Some(".mozilla/firefox/*/places.sqlite"@),
        (Browser::Firefox, Platform::Macos) => Some(
            "Library/Application Support/Firefox/Profiles/*/places.sqlite"@,
        ),
        (Browser::Firefox, Platform::Windows) => Some(
            "AppData/Roaming/Mozilla/Firefox/Profiles/*/places.sqlite"@,
        ),
        (Browser::Safari, Platform::Macos) => Some("Library/Safari/History.db"@),
        (Browser::Safari, _) => None,
        (Browser::Brave, Platform::Macos) => Some(
            "Library/Application Support/BraveSoftware/Brave-Browser/*/History"@,
        ),
        (Browser::Brave, Platform::Linux) => Some(
            ".config/BraveSoftware/Brave-Browser/*/History"@,
        ),
        (Browser::Brave, Platform::Windows) => Some(
            "AppData/Local/BraveSoftware/Brave-Browser/*/History"@,
        ),
    }
}

/// Where `browser` keeps its history files on `platform`.
pub fn default_profile(browser: Browser, platform: Platform) -> (r: Option<&'static str>)
    ensures
        match r {
            Some(pattern) => spec_default_profile(browser, platform) == Some(pattern@),
            None => spec_default_profile(browser, platform) is None,
        },
{
    match (browser, platform) {
        (Browser::Chrome, Platform::Linux) => Some(".config/google-chrome/*/History"),
        (Browser::Chrome, Platform::Macos) => Some(
            "Library/Application Support/Google/Chrome/*/History",
        ),
        (Browser::Chrome, Platform::Windows) => Some(
            "AppData/Local/Google/Chrome/User Data/*/History",
        ),
        (Browser::Firefox, Platform::Linux) => Some(".mozilla/firefox/*/places.sqlite"),
        (Browser::Firefox, Platform::Macos) => Some(
            "Library/Application Support/Firefox/Profiles/*/places.sqlite",
        ),
        (Browser::Firefox, Platform::Windows) => Some(
            "AppData/Roaming/Mozilla/Firefox/Profiles/*/places.sqlite",
        ),
        (Browser::Safari, Platform::Macos) => Some("Library/Safari/History.db"),
        (Browser::Safari, _) => None,
        (Browser::Brave, Platform::Macos) => Some(
            "Library/Application Support/BraveSoftware/Brave-Browser/*/History",
        ),
        (Browser::Brave, Platform::Linux) => Some(".config/BraveSoftware/Brave-Browser/*/History"),
        (Browser::Brave, Platform::Windows) => Some(
            "AppData/Local/BraveSoftware/Brave-Browser/*/History",
        ),
    }
}

/// The browser that is looked for at position `i`, of four.
pub open spec fn spec_browser_order(i: int) -> Browser {
    if i == 0 {
        Browser::Safari
    } else if i == 1 {
        Browser::Chrome
    } else if i == 2 {
        Browser::Firefox
    } else {
        Browser::Brave
    }
}

/// The patterns of the history files that may be found on `platform`: for
/// each browser that runs on it, in the order Safari, Chrome, Firefox,
/// Brave, the pattern below the home directory.
pub open spec fn spec_detect_patterns(platform: Platform, upto: int) -> Seq<Seq<char>>
    decreases upto,
{
    if upto <= 0 {
        Seq::empty()
    } else {
        let before = spec_detect_patterns(platform, upto - 1);
        match spec_default_profile(spec_browser_order(upto - 1), platform) {
            Some(pattern) => before.push(pattern),
            None => before,
        }
    }
}

/// The patterns, below the home directory, of the history files that may be
/// found on `platform`.
pub fn detect_history_files(platform: Platform) -> (r: Vec<&'static str>)
    ensures
        r@.len() == spec_detect_patterns(platform, 4).len(),
        forall|i: int| 0 <= i < r@.len() ==> (#[trigger] r@[i])@ == spec_detect_patterns(
            platform,
            4,
        )[i],
{
    let mut files: Vec<&'static str> = Vec::new();
    let mut i: usize = 0;
    while i < 4
        invariant
            i <= 4,
            files@.len() == spec_detect_patterns(platform, i as int).len(),
            forall|k: int| 0 <= k < files@.len() ==> (#[trigger] files@[k])@ == spec_detect_patterns(
                platform,
                i as int,
            )[k],
        decreases 4 - i,
    {
        let browser = if i == 0 {
            Browser::Safari
        } else if i == 1 {
            Browser::Chrome
        } else if i == 2 {
            Browser::Firefox
        } else {
            Browser::Brave
        };
        match default_profile(browser, platform) {
            Some(pattern) => {
                files.push(pattern);
            },
            None => {},
        }
        i = i + 1;
    }
    files
}

/// The files that an import takes: those that were found, unless the search
/// was turned off, and then those that were named.
pub fn files_to_import(disable_detect: bool, detected: Vec<String>, named: Vec<String>) -> (r: Vec<
    String,
>)
    ensures
        r@ == if disable_detect {
            named@
        } else {
            detected@ + named@
        },
{
    let mut files = if disable_detect {
        Vec::new()
    } else {
        detected
    };
    let mut named = named;
    files.append(&mut named);
    files
}

/// Milliseconds in a day.
pub const DAY_MS: i64 = 24 * 3_600_000;

/// The midnight that ends the day which began at `today_midnight`.
pub fn tomorrow_midnight(today_midnight: i64) -> (r: i64)
    requires
        today_midnight + DAY_MS <= i64::MAX,
    ensures
        r == today_midnight + DAY_MS,
{
    today_midnight + DAY_MS
}

/// The window that stands for all of history: from the epoch to the end of
/// today, where `today_midnight` is the instant at which today began.
pub fn full_timerange(today_midnight: i64) -> (r: (i64, i64))
    requires
        today_midnight + DAY_MS <= i64::MAX,
    ensures
        r.0 == 0,
        r.1 == today_midnight + DAY_MS,
{
    let start: i64 = 0;
    let end = tomorrow_midnight(today_midnight);
    (start, end)
}

/// The title under which a visit is shown: its own, or its URL where it has
/// none.
pub fn format_title(title: String, url: String) -> (r: String)
    ensures
        r@ == if title@.len() == 0 {
            url@
        } else {
            title@
        },
{
    if title.as_str().unicode_len() == 0 {
        url
    } else {
        title
    }
}

} // verus!
