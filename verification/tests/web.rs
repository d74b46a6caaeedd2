use onehistory::types::{ClientError, ErrorMessage, ServerError};
use onehistory::web::{
    details_window, handle_rejection, index_window, is_logged, is_plain_asset, Rejection,
    DEFAULT_SEARCH_INTERVAL,
};

#[test]
fn a_file_of_the_dashboard_stays_in_its_directory() {
    assert!(is_plain_asset("index.html"));
    assert!(is_plain_asset("js/chart.min.js"));
    assert!(is_plain_asset(""));
    assert!(is_plain_asset("a.b/c.d"));
    assert!(!is_plain_asset("/etc/passwd"));
    assert!(!is_plain_asset("../secret"));
    assert!(!is_plain_asset("js/../../secret"));
    assert!(!is_plain_asset("js/.."));
    assert!(!is_plain_asset(".."));
}

#[test]
fn details_show_one_day() {
    assert_eq!(details_window(1_642_204_800_000), (1_642_204_800_000, 1_642_291_200_000));
}

#[test]
fn index_defaults_to_the_last_thirty_days() {
    assert_eq!(DEFAULT_SEARCH_INTERVAL, 2_592_000_000);
    let tomorrow: i64 = 1_642_291_200_000;
    assert_eq!(index_window(None, None, tomorrow), (1_639_699_200_000, 1_642_291_199_999));
    assert_eq!(index_window(Some(5), None, tomorrow), (5, 1_642_291_199_999));
    assert_eq!(index_window(None, Some(7), tomorrow), (1_639_699_200_000, 7));
    assert_eq!(index_window(Some(5), Some(7), tomorrow), (5, 7));
}

#[test]
fn rejections_get_their_status() {
    assert_eq!(
        handle_rejection(Rejection::NotFound),
        ErrorMessage { code: 404, message: "NOT_FOUND".to_string() }
    );
    assert_eq!(
        handle_rejection(Rejection::Server(ServerError { e: "disk".to_string() })),
        ErrorMessage { code: 500, message: "disk".to_string() }
    );
    assert_eq!(
        handle_rejection(Rejection::Client(ClientError { e: "not %Y-%m-%d date".to_string() })),
        ErrorMessage { code: 400, message: "not %Y-%m-%d date".to_string() }
    );
    assert_eq!(
        handle_rejection(Rejection::Unhandled),
        ErrorMessage { code: 500, message: "UNHANDLED_REJECTION".to_string() }
    );
}

#[test]
fn a_missing_page_is_not_logged() {
    assert!(!is_logged(404));
    assert!(is_logged(400));
    assert!(is_logged(500));
}
