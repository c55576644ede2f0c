use quandl_v3::{comes_before, ApiErrorResponse, Error, QuandlError};

fn response(errors: Option<Vec<(String, Vec<String>)>>) -> ApiErrorResponse {
    ApiErrorResponse {
        errors,
        quandl_error: QuandlError {
            code: "QESx04".to_string(),
            message: "You have submitted incorrect query parameters.".to_string(),
        },
    }
}

#[test]
fn description_names_the_kind() {
    assert_eq!(
        Error::ApiCallFailed(response(None)).description(),
        "Quandl's server responded with an error."
    );
    assert_eq!(Error::DownloadFailed("x".to_string()).description(), "Download failed.");
    assert_eq!(Error::ParsingFailed("x".to_string()).description(), "Parsing data failed.");
    assert_eq!(
        Error::IoError("x".to_string()).description(),
        "Underlying system I/O error."
    );
}

#[test]
fn message_quotes_the_cause() {
    assert_eq!(
        Error::DownloadFailed("timeout".to_string()).message(),
        "download failed with error 'timeout'."
    );
    assert_eq!(
        Error::ParsingFailed("eof".to_string()).message(),
        "parsing encoded data failed with error 'eof'."
    );
    assert_eq!(
        Error::IoError("denied".to_string()).message(),
        "I/O operation failed with error 'denied'."
    );
}

#[test]
fn message_of_the_service_names_the_first_object() {
    let errors = vec![
        (
            "end_date".to_string(),
            vec!["is out of range".to_string(), "is odd".to_string()],
        ),
        ("start_date".to_string(), vec!["is late".to_string()]),
    ];
    assert_eq!(
        Error::ApiCallFailed(response(Some(errors))).message(),
        "end_date -  is out of range is odd"
    );
}

#[test]
fn message_of_the_service_without_objects() {
    assert_eq!(
        Error::ApiCallFailed(response(None)).message(),
        "You have submitted incorrect query parameters."
    );
    assert_eq!(
        Error::ApiCallFailed(response(Some(vec![]))).message(),
        "You have submitted incorrect query parameters."
    );
    let bare = vec![("rows".to_string(), vec![])];
    assert_eq!(Error::ApiCallFailed(response(Some(bare))).message(), "rows - ");
}

#[test]
fn names_in_their_order() {
    let names = ["", "a", "ab", "abc", "b", "ba", "B", "é", "end_date", "start_date", "z\u{10000}"];
    for first in names {
        for second in names {
            assert_eq!(comes_before(first, second), first < second);
        }
    }
}

#[test]
fn response_knows_whether_its_objects_are_in_order() {
    assert!(response(None).is_ordered());
    assert!(response(Some(vec![])).is_ordered());
    assert!(response(Some(vec![("only".to_string(), vec![])])).is_ordered());
    let ordered = vec![
        ("column".to_string(), vec![]),
        ("end_date".to_string(), vec![]),
        ("start_date".to_string(), vec![]),
    ];
    assert!(response(Some(ordered)).is_ordered());
    let twice = vec![("a".to_string(), vec![]), ("a".to_string(), vec![])];
    assert!(!response(Some(twice)).is_ordered());
    let turned = vec![
        ("a".to_string(), vec![]),
        ("c".to_string(), vec![]),
        ("b".to_string(), vec![]),
    ];
    assert!(!response(Some(turned)).is_ordered());
}
