//! Conversion between the canonical epoch and the timestamp encodings of the
//! browser families.
//!
//! The canonical epoch counts milliseconds since 1970-01-01T00:00:00 UTC.
//! Safari counts seconds since 2001-01-01 with a fraction, Firefox counts
//! microseconds since 1970-01-01 (PRTime), and Chrome counts microseconds
//! since 1601-01-01. A Safari instant is held here in thousandths of a
//! second, so that all three native encodings are 64-bit integers.

use crate::types::{HistoryError, SourceName};
use vstd::arithmetic::div_mod::lemma_div_multiples_vanish;
use vstd::prelude::*;

verus! {

/// Milliseconds from 1970-01-01 to 2001-01-01.
pub const NSDATE_OFFSET_MS: i64 = 978_307_200_000;

/// Microseconds from 1601-01-01 to 1970-01-01.
pub const WEBKIT_OFFSET_US: i64 = 11_644_473_600_000_000;

/// Microseconds in a millisecond.
pub const US_PER_MS: i64 = 1_000;

/// Whether `x` can be held in an `i64`.
pub open spec fn fits_i64(x: int) -> bool {
    i64::MIN <= x <= i64::MAX
}

/// A canonical instant in Safari's encoding: thousandths of a second since
/// 2001-01-01, that is `ms / 1000 - 978307200` seconds.
pub open spec fn spec_ms_to_nsdate(ms: int) -> int {
    ms - NSDATE_OFFSET_MS
}

/// A canonical instant in Firefox's encoding.
pub open spec fn spec_ms_to_prtime(ms: int) -> int {
    ms * US_PER_MS
}

/// A canonical instant in Chrome's encoding.
pub open spec fn spec_ms_to_webkit(ms: int) -> int {
    ms * US_PER_MS + WEBKIT_OFFSET_US
}

/// The microseconds since 1970-01-01 that stand for a Safari instant given
/// in thousandths of a second: `(seconds + 978307200) * 1000000`.
pub open spec fn spec_nsdate_to_prtime(thousandths: int) -> int {
    (thousandths + NSDATE_OFFSET_MS) * US_PER_MS
}

/// A Firefox instant in the canonical epoch. The division rounds towards
/// negative infinity, so instants before 1970 keep their order.
pub open spec fn spec_prtime_to_ms(us: int) -> int {
    us / (US_PER_MS as int)
}

/// A Safari instant in the canonical epoch, by way of its PRTime equivalent.
pub open spec fn spec_nsdate_to_ms(thousandths: int) -> int {
    spec_prtime_to_ms(spec_nsdate_to_prtime(thousandths))
}

/// A Chrome instant in the canonical epoch.
pub open spec fn spec_webkit_to_ms(us: int) -> int {
    (us - WEBKIT_OFFSET_US) / (US_PER_MS as int)
}

/// A canonical instant in the encoding of `family`.
pub open spec fn spec_canonical_to_native(family: SourceName, ms: int) -> int {
    match family {
        SourceName::Safari => spec_ms_to_nsdate(ms),
        SourceName::Firefox => spec_ms_to_prtime(ms),
        SourceName::Chrome => spec_ms_to_webkit(ms),
    }
}

/// An instant in the encoding of `family`, in the canonical epoch.
pub open spec fn spec_native_to_canonical(family: SourceName, native: int) -> int {
    match family {
        SourceName::Safari => spec_nsdate_to_ms(native),
        SourceName::Firefox => spec_prtime_to_ms(native),
        SourceName::Chrome => spec_webkit_to_ms(native),
    }
}

/// What a conversion returns for the exact result `exact`: the value where
/// it fits, `ConversionOverflow` where it does not.
pub open spec fn converted(r: Result<i64, HistoryError>, exact: int) -> bool {
    match r {
        Ok(v) => v == exact,
        Err(e) => e@ is ConversionOverflow && !fits_i64(exact),
    }
}

/// The Safari encoding of the canonical instant `ts`, in thousandths of a
/// second since 2001-01-01.
pub fn unixepoch_ms_to_nsdate(ts: i64) -> (r: Result<i64, HistoryError>)
    ensures
        converted(r, spec_ms_to_nsdate(ts as int)),
{
    match ts.checked_sub(NSDATE_OFFSET_MS) {
        Some(v) => Ok(v),
        None => Err(HistoryError::ConversionOverflow),
    }
}

/// The Firefox encoding of the canonical instant `ts`.
pub fn unixepoch_ms_to_prtime(ts: i64) -> (r: Result<i64, HistoryError>)
    ensures
        converted(r, spec_ms_to_prtime(ts as int)),
{
    match ts.checked_mul(US_PER_MS) {
        Some(v) => Ok(v),
        None => Err(HistoryError::ConversionOverflow),
    }
}

/// The Chrome encoding of the canonical instant `ts`.
pub fn unixepoch_ms_to_webkit(ts: i64) -> (r: Result<i64, HistoryError>)
    ensures
        converted(r, spec_ms_to_webkit(ts as int)),
{
    // The offset is positive: where the product is too small the sum may
    // still fit, so the sum is formed in 128 bits.
    let scale: i128 = US_PER_MS as i128;
    let offset: i128 = WEBKIT_OFFSET_US as i128;
    assert(i64::MIN * 1_000 <= ts * scale <= i64::MAX * 1_000) by (nonlinear_arith)
        requires
            i64::MIN <= ts <= i64::MAX,
            scale == 1_000,
    ;
    let wide: i128 = (ts as i128) * scale + offset;
    if wide < i64::MIN as i128 || wide > i64::MAX as i128 {
        Err(HistoryError::ConversionOverflow)
    } else {
        Ok(wide as i64)
    }
}

/// The canonical instant of a Firefox timestamp. Every PRTime has one.
pub fn prtime_to_unixepoch_ms(us: i64) -> (ms: i64)
    ensures
        ms == spec_prtime_to_ms(us as int),
{
    let ms = us.checked_div_euclid(US_PER_MS);
    ms.unwrap()
}

/// The canonical instant of a Safari timestamp given in thousandths of a
/// second since 2001-01-01.
pub fn nsdate_to_unixepoch_ms(thousandths: i64) -> (r: Result<i64, HistoryError>)
    ensures
        converted(r, spec_nsdate_to_ms(thousandths as int)),
{
    proof {
        lemma_div_multiples_vanish(thousandths + NSDATE_OFFSET_MS, US_PER_MS as int);
        assert((thousandths + NSDATE_OFFSET_MS) * US_PER_MS == US_PER_MS * (thousandths
            + NSDATE_OFFSET_MS));
    }
    match thousandths.checked_add(NSDATE_OFFSET_MS) {
        Some(v) => Ok(v),
        None => Err(HistoryError::ConversionOverflow),
    }
}

/// The canonical instant of a Chrome timestamp. Every Chrome timestamp has
/// one: the difference is formed in 128 bits, and its thousandth fits.
pub fn webkit_to_unixepoch_ms(us: i64) -> (ms: i64)
    ensures
        ms == spec_webkit_to_ms(us as int),
{
    let shifted: i128 = (us as i128) - (WEBKIT_OFFSET_US as i128);
    let ms = shifted.checked_div_euclid(US_PER_MS as i128);
    ms.unwrap() as i64
}

/// The encoding of the canonical instant `ms` that `family` uses.
pub fn canonical_to_native(family: SourceName, ms: i64) -> (r: Result<i64, HistoryError>)
    ensures
        converted(r, spec_canonical_to_native(family, ms as int)),
{
    match family {
        SourceName::Safari => unixepoch_ms_to_nsdate(ms),
        SourceName::Firefox => unixepoch_ms_to_prtime(ms),
        SourceName::Chrome => unixepoch_ms_to_webkit(ms),
    }
}

/// The canonical instant of a timestamp in the encoding of `family`.
pub fn native_to_canonical(family: SourceName, native: i64) -> (r: Result<i64, HistoryError>)
    ensures
        converted(r, spec_native_to_canonical(family, native as int)),
{
    match family {
        SourceName::Safari => nsdate_to_unixepoch_ms(native),
        SourceName::Firefox => Ok(prtime_to_unixepoch_ms(native)),
        SourceName::Chrome => Ok(webkit_to_unixepoch_ms(native)),
    }
}

/// Converting a canonical instant to the encoding of any family and back
/// gives the instant again, to the millisecond.
pub proof fn lemma_round_trip(family: SourceName, ms: int)
    ensures
        spec_native_to_canonical(family, spec_canonical_to_native(family, ms)) == ms,
{
    lemma_div_multiples_vanish(ms, US_PER_MS as int);
    assert(ms * US_PER_MS == US_PER_MS * ms);
    assert((ms - NSDATE_OFFSET_MS + NSDATE_OFFSET_MS) * US_PER_MS == US_PER_MS * ms);
}

/// What `canonical_to_native` returns for an instant, `native_to_canonical`
/// takes back to that instant.
pub proof fn lemma_round_trip_of_results(
    family: SourceName,
    ms: i64,
    there: Result<i64, HistoryError>,
    back: Result<i64, HistoryError>,
)
    requires
        converted(there, spec_canonical_to_native(family, ms as int)),
        there matches Ok(native) && converted(
            back,
            spec_native_to_canonical(family, native as int),
        ),
    ensures
        back matches Ok(again) && again == ms,
{
    lemma_round_trip(family, ms as int);
}

/// Converting back loses less than one millisecond: a native timestamp and
/// the native encoding of its canonical instant differ by less than a
/// thousand microseconds, and by nothing for Safari.
pub proof fn lemma_native_precision(family: SourceName, native: int)
    ensures
        ({
            let back = spec_canonical_to_native(family, spec_native_to_canonical(family, native));
            match family {
                SourceName::Safari => back == native,
                _ => back <= native < back + US_PER_MS,
            }
        }),
{
    lemma_div_multiples_vanish(native + NSDATE_OFFSET_MS, US_PER_MS as int);
    assert((native + NSDATE_OFFSET_MS) * US_PER_MS == US_PER_MS * (native + NSDATE_OFFSET_MS));
}

/// The canonical instant keeps the order of the native timestamps.
pub proof fn lemma_native_order(family: SourceName, a: int, b: int)
    requires
        a <= b,
    ensures
        spec_native_to_canonical(family, a) <= spec_native_to_canonical(family, b),
{
}

} // verus!
