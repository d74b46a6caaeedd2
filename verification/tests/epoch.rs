use onehistory::epoch::{
    canonical_to_native, native_to_canonical, nsdate_to_unixepoch_ms, prtime_to_unixepoch_ms,
    unixepoch_ms_to_nsdate, unixepoch_ms_to_prtime, unixepoch_ms_to_webkit, webkit_to_unixepoch_ms,
};
use onehistory::types::{HistoryError, SourceName};

const FAMILIES: [SourceName; 3] = [SourceName::Safari, SourceName::Firefox, SourceName::Chrome];

#[test]
fn firefox_counts_microseconds_since_1970() {
    assert_eq!(unixepoch_ms_to_prtime(0), Ok(0));
    assert_eq!(unixepoch_ms_to_prtime(1_650_000_000_123), Ok(1_650_000_000_123_000));
    assert_eq!(unixepoch_ms_to_prtime(-1), Ok(-1_000));
}

#[test]
fn chrome_counts_microseconds_since_1601() {
    assert_eq!(unixepoch_ms_to_webkit(0), Ok(11_644_473_600_000_000));
    assert_eq!(unixepoch_ms_to_webkit(1_650_000_000_123), Ok(13_294_473_600_123_000));
    assert_eq!(unixepoch_ms_to_webkit(-11_644_473_600_000), Ok(0));
}

#[test]
fn safari_counts_thousandths_since_2001() {
    assert_eq!(unixepoch_ms_to_nsdate(978_307_200_000), Ok(0));
    assert_eq!(unixepoch_ms_to_nsdate(1_650_000_000_123), Ok(671_692_800_123));
    assert_eq!(unixepoch_ms_to_nsdate(0), Ok(-978_307_200_000));
}

#[test]
fn prtime_loses_its_microseconds() {
    assert_eq!(prtime_to_unixepoch_ms(1_650_000_000_123_000), 1_650_000_000_123);
    assert_eq!(prtime_to_unixepoch_ms(1_650_000_000_123_999), 1_650_000_000_123);
    assert_eq!(prtime_to_unixepoch_ms(0), 0);
}

#[test]
fn prtime_before_the_epoch_rounds_down() {
    assert_eq!(prtime_to_unixepoch_ms(-1), -1);
    assert_eq!(prtime_to_unixepoch_ms(-1_000), -1);
    assert_eq!(prtime_to_unixepoch_ms(-1_001), -2);
    assert_eq!(prtime_to_unixepoch_ms(i64::MIN), -9_223_372_036_854_776);
}

#[test]
fn webkit_to_canonical_subtracts_the_offset() {
    assert_eq!(webkit_to_unixepoch_ms(11_644_473_600_000_000), 0);
    assert_eq!(webkit_to_unixepoch_ms(13_294_473_600_123_456), 1_650_000_000_123);
    assert_eq!(webkit_to_unixepoch_ms(0), -11_644_473_600_000);
    assert_eq!(webkit_to_unixepoch_ms(i64::MIN), -9_235_016_510_454_776);
}

#[test]
fn nsdate_to_canonical_adds_the_offset() {
    assert_eq!(nsdate_to_unixepoch_ms(0), Ok(978_307_200_000));
    assert_eq!(nsdate_to_unixepoch_ms(671_692_800_123), Ok(1_650_000_000_123));
    assert_eq!(nsdate_to_unixepoch_ms(-978_307_200_000), Ok(0));
}

#[test]
fn conversion_reports_overflow() {
    assert_eq!(unixepoch_ms_to_prtime(i64::MAX), Err(HistoryError::ConversionOverflow));
    assert_eq!(unixepoch_ms_to_prtime(i64::MIN), Err(HistoryError::ConversionOverflow));
    assert_eq!(
        unixepoch_ms_to_prtime(9_223_372_036_854_776),
        Err(HistoryError::ConversionOverflow)
    );
    assert_eq!(unixepoch_ms_to_prtime(9_223_372_036_854_775), Ok(9_223_372_036_854_775_000));
    assert_eq!(unixepoch_ms_to_nsdate(i64::MIN), Err(HistoryError::ConversionOverflow));
    assert_eq!(
        unixepoch_ms_to_nsdate(i64::MIN + 978_307_200_000),
        Ok(i64::MIN)
    );
    assert_eq!(nsdate_to_unixepoch_ms(i64::MAX), Err(HistoryError::ConversionOverflow));
    assert_eq!(unixepoch_ms_to_webkit(i64::MAX), Err(HistoryError::ConversionOverflow));
}

#[test]
fn webkit_fits_where_only_the_product_is_too_small() {
    // -9223372036854776 * 1000 is below i64::MIN, the sum with the offset is not.
    assert_eq!(
        unixepoch_ms_to_webkit(-9_223_372_036_854_776),
        Ok(-9_211_727_563_254_776_000)
    );
    assert_eq!(
        unixepoch_ms_to_webkit(9_211_727_563_254_775),
        Ok(9_223_372_036_854_775_000)
    );
    assert_eq!(
        unixepoch_ms_to_webkit(9_211_727_563_254_776),
        Err(HistoryError::ConversionOverflow)
    );
}

#[test]
fn round_trip_is_exact_from_1990_to_2030() {
    let years: [i64; 6] = [
        631_152_000_000,
        946_684_800_000,
        978_307_200_000,
        1_262_304_000_000,
        1_577_836_800_000,
        1_893_456_000_000,
    ];
    let offsets: [i64; 5] = [0, 1, 499, 999, 86_399_999];
    for family in FAMILIES {
        for year in years {
            for offset in offsets {
                let t = year + offset;
                let native = canonical_to_native(family, t).unwrap();
                let back = native_to_canonical(family, native).unwrap();
                assert!((back - t).abs() <= 1, "{:?} {}", family, t);
                assert_eq!(back, t, "{:?} {}", family, t);
            }
        }
    }
}

#[test]
fn dispatch_follows_the_family() {
    let t: i64 = 1_000_000_000_000;
    assert_eq!(canonical_to_native(SourceName::Safari, t), unixepoch_ms_to_nsdate(t));
    assert_eq!(canonical_to_native(SourceName::Firefox, t), unixepoch_ms_to_prtime(t));
    assert_eq!(canonical_to_native(SourceName::Chrome, t), unixepoch_ms_to_webkit(t));
    assert_eq!(native_to_canonical(SourceName::Safari, 21_692_800_000), Ok(t));
    assert_eq!(native_to_canonical(SourceName::Firefox, 1_000_000_000_000_000), Ok(t));
    assert_eq!(native_to_canonical(SourceName::Chrome, 12_644_473_600_000_000), Ok(t));
}

#[test]
fn native_order_is_kept() {
    for family in [SourceName::Firefox, SourceName::Chrome] {
        let mut last = i64::MIN;
        for native in [-5_000_001i64, -5_000_000, -1, 0, 999, 1_000, 1_001, 13_000_000_000_000_000] {
            let ms = native_to_canonical(family, native).unwrap();
            assert!(ms >= last);
            last = ms;
        }
    }
}
