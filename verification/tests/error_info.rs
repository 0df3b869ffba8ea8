use error_info::ErrorInfo;

#[test]
fn test_error_info_new() {
    let error = ErrorInfo::new("TypeError", "An error occurred", 400, "Invalid input");
    assert_eq!(error.error_type, "TypeError");
    assert_eq!(error.message, "An error occurred");
    assert_eq!(error.status, 400);
    assert_eq!(error.details, "Invalid input");
    assert!(error.timestamp.is_none());
    println!("{}", error.to_json_pretty());
}

#[test]
fn test_error_info_serialize() {
    let error = ErrorInfo::new("TypeError", "An error occurred", 400, "Invalid input");
    let serialized = error.to_json();
    let expected: serde_json::Value = serde_json::from_str(
        "{\"error\":{\"type\":\"TypeError\",\"message\":\"An error occurred\",\"details\":\"Invalid input\",\"status\":400}}",
    )
    .unwrap();
    assert_eq!(
        serde_json::from_str::<serde_json::Value>(&serialized).unwrap(),
        expected
    );
}

#[test]
fn test_error_info_display() {
    let error = ErrorInfo::new("TypeError", "An error occurred", 400, "Invalid input");
    let display = error.to_json_pretty();
    let expected = "{\n  \"error\": {\n    \"type\": \"TypeError\",\n    \"message\": \"An error occurred\",\n    \"details\": \"Invalid input\",\n    \"status\": 400\n  }\n}";
    assert_eq!(display, expected);
    // The display form is the pretty-printed rendering of the very same JSON
    // value that the compact serialization produces.
    let from_display: serde_json::Value = serde_json::from_str(&display).unwrap();
    let from_compact: serde_json::Value = serde_json::from_str(&error.to_json()).unwrap();
    assert_eq!(from_display, from_compact);
}

#[test]
fn test_exact_compact_scenario() {
    let error = ErrorInfo::new("TypeError", "An error occurred", 400, "Invalid input");
    assert_eq!(
        error.to_json(),
        "{\"error\":{\"type\":\"TypeError\",\"message\":\"An error occurred\",\"details\":\"Invalid input\",\"status\":400}}"
    );
}

#[test]
fn test_serialize_twice_identical() {
    let error = ErrorInfo::new("TypeError", "An error occurred", 400, "Invalid input");
    assert_eq!(error.to_json(), error.to_json());
    assert_eq!(error.to_json_pretty(), error.to_json_pretty());
}

#[test]
fn test_round_trip_fields() {
    let error = ErrorInfo::new("TypeError", "An error occurred", 400, "Invalid input");
    let v: serde_json::Value = serde_json::from_str(&error.to_json()).unwrap();
    let inner = v.get("error").unwrap();
    assert_eq!(inner.get("type").unwrap().as_str().unwrap(), "TypeError");
    assert_eq!(
        inner.get("message").unwrap().as_str().unwrap(),
        "An error occurred"
    );
    assert_eq!(
        inner.get("details").unwrap().as_str().unwrap(),
        "Invalid input"
    );
    assert_eq!(inner.get("status").unwrap().as_u64().unwrap(), 400);
    assert!(inner.get("timestamp").is_none());
}

#[test]
fn test_escaping_round_trip() {
    let message = "line1\nline2 \"quoted\" back\\slash tab\t bell\u{7} \u{1f}";
    let error = ErrorInfo::new("T", message, 500, "d\u{8}e\u{c}f\r");
    let s = error.to_json();
    assert!(s.contains("line1\\nline2 \\\"quoted\\\" back\\\\slash tab\\t bell\\u0007 \\u001f"));
    assert!(s.contains("d\\be\\ff\\r"));
    let v: serde_json::Value = serde_json::from_str(&s).unwrap();
    assert_eq!(v["error"]["message"].as_str().unwrap(), message);
    assert_eq!(v["error"]["details"].as_str().unwrap(), "d\u{8}e\u{c}f\r");
}

#[test]
fn test_empty_fields() {
    let error = ErrorInfo::new("", "", 0, "");
    assert_eq!(
        error.to_json(),
        "{\"error\":{\"type\":\"\",\"message\":\"\",\"details\":\"\",\"status\":0}}"
    );
}

#[test]
fn test_status_extremes() {
    let low = ErrorInfo::new("t", "m", 0, "d");
    assert!(low.to_json().ends_with("\"status\":0}}"));
    let high = ErrorInfo::new("t", "m", 65535, "d");
    assert!(high.to_json().ends_with("\"status\":65535}}"));
}

#[test]
fn test_new_with_timestamp() {
    let error = ErrorInfo::new_with_timestamp(
        "TypeError",
        "An error occurred",
        400,
        "Invalid input",
        "2024-01-01T12:00:00+00:00",
    );
    assert_eq!(error.error_type, "TypeError");
    assert_eq!(error.message, "An error occurred");
    assert_eq!(error.status, 400);
    assert_eq!(error.details, "Invalid input");
    assert_eq!(error.timestamp.as_deref(), Some("2024-01-01T12:00:00+00:00"));
    assert_eq!(
        error.to_json(),
        "{\"error\":{\"type\":\"TypeError\",\"message\":\"An error occurred\",\"details\":\"Invalid input\",\"status\":400,\"timestamp\":\"2024-01-01T12:00:00+00:00\"}}"
    );
    assert_eq!(
        error.to_json_pretty(),
        "{\n  \"error\": {\n    \"type\": \"TypeError\",\n    \"message\": \"An error occurred\",\n    \"details\": \"Invalid input\",\n    \"status\": 400,\n    \"timestamp\": \"2024-01-01T12:00:00+00:00\"\n  }\n}"
    );
}

#[test]
fn test_timestamped_is_rfc3339_and_current() {
    let before = chrono::Utc::now();
    let error = ErrorInfo::new_timestamped("TypeError", "An error occurred", 400, "Invalid input");
    let after = chrono::Utc::now();
    let v: serde_json::Value = serde_json::from_str(&error.to_json()).unwrap();
    let stamp = v["error"]["timestamp"].as_str().unwrap();
    let parsed = chrono::DateTime::parse_from_rfc3339(stamp)
        .unwrap()
        .with_timezone(&chrono::Utc);
    let slack = chrono::Duration::seconds(5);
    assert!(parsed >= before - slack);
    assert!(parsed <= after + slack);
}
