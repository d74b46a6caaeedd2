use onehistory::util::{
    default_profile, detect_history_files, domain_from, domain_or_url, files_to_import,
    format_title, full_timerange, local_seconds, midnight_in_zone, tomorrow_midnight,
    unixepoch_as_hms, unixepoch_as_ymd, unixepoch_as_ymdhms, ymd_midnight, ymd_seconds, Browser,
    Platform, DAY_MS,
};

#[test]
fn test_ymd_midnight() {
    let cases = vec!["2022-01-15"];
    for ymd in cases {
        assert_eq!(unixepoch_as_ymd(ymd_midnight(ymd, 0).unwrap(), 0).unwrap(), ymd);
    }
}

#[test]
fn a_day_begins_at_its_midnight_in_the_zone() {
    assert_eq!(ymd_seconds("2022-01-15"), Some(1_642_204_800));
    assert_eq!(ymd_midnight("2022-01-15", 0).unwrap(), 1_642_204_800_000);
    assert_eq!(ymd_midnight("2022-01-15", 8 * 3600).unwrap(), 1_642_176_000_000);
    assert_eq!(ymd_midnight("2022-01-15", -5 * 3600).unwrap(), 1_642_222_800_000);
    assert_eq!(ymd_midnight("1970-01-01", 0).unwrap(), 0);
    assert_eq!(ymd_midnight("1969-12-31", 0).unwrap(), -86_400_000);
    for offset in [-12 * 3600, -3600, 0, 1800, 14 * 3600] {
        let midnight = ymd_midnight("2022-01-15", offset).unwrap();
        assert_eq!(unixepoch_as_ymdhms(midnight, offset).unwrap(), "2022-01-15 00:00:00");
        assert_eq!(unixepoch_as_ymd(midnight - 1, offset).unwrap(), "2022-01-14");
    }
}

#[test]
fn what_is_no_day_is_refused() {
    for text in ["", "2022-13-01", "2022-02-30", "15/01/2022", "2022-01-15 10:00", "tomorrow"] {
        assert_eq!(ymd_seconds(text), None, "{text}");
        assert_eq!(ymd_midnight(text, 0).unwrap_err().e, "not %Y-%m-%d date");
    }
    assert_eq!(midnight_in_zone(None, 3600).unwrap_err().e, "not %Y-%m-%d date");
}

#[test]
fn a_midnight_out_of_range_is_refused() {
    assert_eq!(midnight_in_zone(Some(i64::MAX / 1000 + 1), 0).unwrap_err().e, "date out of range");
    assert_eq!(midnight_in_zone(Some(i64::MIN), 1).unwrap_err().e, "date out of range");
    assert_eq!(midnight_in_zone(Some(9_223_372_036_854_775), 0).unwrap(), 9_223_372_036_854_775_000);
    assert_eq!(midnight_in_zone(Some(86_400), 3_600).unwrap(), 82_800_000);
}

#[test]
fn instants_are_written_in_the_zone() {
    let ts: i64 = 1_642_204_799_999;
    assert_eq!(unixepoch_as_ymd(ts, 0).unwrap(), "2022-01-14");
    assert_eq!(unixepoch_as_hms(ts, 0).unwrap(), "23:59:59");
    assert_eq!(unixepoch_as_ymdhms(ts, 0).unwrap(), "2022-01-14 23:59:59");
    assert_eq!(unixepoch_as_ymdhms(ts, 1).unwrap(), "2022-01-15 00:00:00");
    assert_eq!(unixepoch_as_ymdhms(ts, 8 * 3600).unwrap(), "2022-01-15 07:59:59");
    assert_eq!(unixepoch_as_ymdhms(0, 0).unwrap(), "1970-01-01 00:00:00");
    assert_eq!(unixepoch_as_ymdhms(-1, 0).unwrap(), "1970-01-01 00:00:00");
    assert_eq!(unixepoch_as_ymdhms(-1_000, 0).unwrap(), "1969-12-31 23:59:59");
    assert_eq!(unixepoch_as_ymd(i64::MAX, 0), None);
    assert_eq!(unixepoch_as_hms(i64::MIN, 0), None);
}

#[test]
fn the_fraction_of_a_second_is_dropped() {
    assert_eq!(local_seconds(1_999, 0), 1);
    assert_eq!(local_seconds(-1_999, 0), -1);
    assert_eq!(local_seconds(-999, 0), 0);
    assert_eq!(local_seconds(5_000, -7), -2);
    assert_eq!(local_seconds(i64::MIN, i32::MIN), -9_223_372_036_854_775 - 2_147_483_648);
}

#[test]
fn test_demain_from() {
    let cases = vec![
        ("https://emacs-china.org/", "emacs-china.org"),
        ("https://github.com/notifications", "github.com"),
        ("data:text/html", "data:text/html"),
    ];

    for (url, expected) in cases {
        assert_eq!(domain_from(url.to_string()), expected);
    }
}

#[test]
fn domain_is_the_shortest_host() {
    assert_eq!(domain_from("http://a.example/b/c/".to_string()), "a.example");
    assert_eq!(domain_from("ftp://host:21/x".to_string()), "host:21");
    assert_eq!(domain_from("https://no-slash.example".to_string()), "https://no-slash.example");
    assert_eq!(domain_from(":///".to_string()), ":///");
    assert_eq!(domain_from("".to_string()), "");
}

#[test]
fn domain_or_url_prefers_the_host() {
    assert_eq!(domain_or_url(Some("host".to_string()), "url".to_string()), "host");
    assert_eq!(domain_or_url(None, "url".to_string()), "url");
}

#[test]
fn title_falls_back_to_the_url() {
    assert_eq!(format_title("".to_string(), "https://a/".to_string()), "https://a/");
    assert_eq!(format_title("A".to_string(), "https://a/".to_string()), "A");
    assert_eq!(format_title(" ".to_string(), "https://a/".to_string()), " ");
}

#[test]
fn tomorrow_is_a_day_later() {
    assert_eq!(DAY_MS, 86_400_000);
    assert_eq!(tomorrow_midnight(1_642_204_800_000), 1_642_291_200_000);
    assert_eq!(tomorrow_midnight(0), 86_400_000);
}

#[test]
fn full_timerange_runs_from_the_epoch_to_tomorrow() {
    assert_eq!(full_timerange(1_642_204_800_000), (0, 1_642_291_200_000));
    assert_eq!(full_timerange(-86_400_000), (0, 0));
}

#[test]
fn profiles_follow_the_platform() {
    assert_eq!(
        default_profile(Browser::Chrome, Platform::Linux),
        Some(".config/google-chrome/*/History")
    );
    assert_eq!(
        default_profile(Browser::Firefox, Platform::Windows),
        Some("AppData/Roaming/Mozilla/Firefox/Profiles/*/places.sqlite")
    );
    assert_eq!(default_profile(Browser::Safari, Platform::Macos), Some("Library/Safari/History.db"));
    assert_eq!(default_profile(Browser::Safari, Platform::Linux), None);
    assert_eq!(default_profile(Browser::Safari, Platform::Windows), None);
    assert_eq!(
        default_profile(Browser::Brave, Platform::Macos),
        Some("Library/Application Support/BraveSoftware/Brave-Browser/*/History")
    );
}

#[test]
fn history_files_are_looked_for_in_order() {
    assert_eq!(
        detect_history_files(Platform::Linux),
        vec![
            ".config/google-chrome/*/History",
            ".mozilla/firefox/*/places.sqlite",
            ".config/BraveSoftware/Brave-Browser/*/History",
        ]
    );
    assert_eq!(
        detect_history_files(Platform::Macos),
        vec![
            "Library/Safari/History.db",
            "Library/Application Support/Google/Chrome/*/History",
            "Library/Application Support/Firefox/Profiles/*/places.sqlite",
            "Library/Application Support/BraveSoftware/Brave-Browser/*/History",
        ]
    );
    assert_eq!(detect_history_files(Platform::Windows).len(), 3);
}

#[test]
fn named_files_follow_the_detected_ones() {
    let detected = vec!["d1".to_string(), "d2".to_string()];
    let named = vec!["n1".to_string()];
    assert_eq!(files_to_import(false, detected.clone(), named.clone()), vec!["d1", "d2", "n1"]);
    assert_eq!(files_to_import(true, detected, named), vec!["n1"]);
    assert_eq!(files_to_import(false, vec![], vec![]), Vec::<String>::new());
}
