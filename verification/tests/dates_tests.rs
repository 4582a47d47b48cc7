use git_ombl::parse_date;
use git_ombl::HistoryError;

#[test]
fn test_git_adapter_parse_date_iso8601() {
    // Test parsing various ISO 8601 formats
    let iso_date = "2023-01-01T00:00:00Z";
    let parsed = parse_date(iso_date).unwrap();
    assert_eq!(parsed, 1672531200); // 2023-01-01 UTC

    let iso_with_tz = "2023-01-01T09:00:00+09:00";
    let parsed_tz = parse_date(iso_with_tz).unwrap();
    assert_eq!(parsed_tz, 1672531200); // Same UTC time
}

#[test]
fn test_git_adapter_parse_date_simple_formats() {
    // Test simple date format
    let simple_date = "2023-01-01";
    let parsed = parse_date(simple_date).unwrap();
    let rendered = chrono::DateTime::from_timestamp(parsed, 0)
        .unwrap()
        .format("%Y-%m-%d")
        .to_string();
    assert_eq!(rendered, "2023-01-01");

    // Test datetime format
    let datetime = "2023-01-01 12:00:00";
    let parsed_dt = parse_date(datetime).unwrap();
    let hour = chrono::DateTime::from_timestamp(parsed_dt, 0)
        .unwrap()
        .format("%H")
        .to_string();
    assert_eq!(hour, "12");
}

#[test]
fn test_git_adapter_parse_date_formats() {
    // Test additional formats
    let iso_local = "2023-01-01T00:00:00";
    let parsed = parse_date(iso_local);
    assert!(parsed.is_err()); // Should fail without timezone

    // Test error case
    let invalid_date = "not-a-date";
    let result = parse_date(invalid_date);
    assert!(result.is_err());
}

#[test]
fn test_parse_date_rfc2822() {
    let parsed = parse_date("Sun, 01 Jan 2023 00:00:00 GMT").unwrap();
    assert_eq!(parsed, 1672531200);
}

#[test]
fn test_parse_date_error_message() {
    let err = parse_date("nonsense").unwrap_err();
    match &err {
        HistoryError::InvalidDateFormat(text) => assert_eq!(text, "nonsense"),
        other => panic!("unexpected error: {:?}", other),
    }
    let message = err.message();
    assert!(message.contains("Unable to parse date 'nonsense'"));
    assert!(message.contains("ISO 8601"));
    assert!(message.contains("RFC 2822"));
}
