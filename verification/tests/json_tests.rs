use loadtest::json::{json_response, parse_json_field};

#[test]
fn field_scanner_extracts_string_values() {
    let body = b"{\"UserName\": \"user1@example.com\", \"HashedPassword\": \"abc123\"}";
    assert_eq!(
        parse_json_field(body, b"UserName"),
        Some(b"user1@example.com".to_vec())
    );
    assert_eq!(parse_json_field(body, b"HashedPassword"), Some(b"abc123".to_vec()));
}

#[test]
fn field_scanner_misses() {
    let body = b"{\"UserName\":\"u\"}";
    // Absent field.
    assert_eq!(parse_json_field(body, b"HashedPassword"), None);
    // Non-string value.
    assert_eq!(parse_json_field(b"{\"UserId\":42}", b"UserId"), None);
    // Unterminated value.
    assert_eq!(parse_json_field(b"{\"K\":\"v", b"K"), None);
}

#[test]
fn response_formatting_success_shape() {
    assert_eq!(
        json_response(true, Some(42), None),
        b"{\"Success\":true,\"UserId\":42}".to_vec()
    );
    // A present identifier renders the success shape whatever the flag
    // and message say.
    assert_eq!(
        json_response(false, Some(-1), Some(b"ignored")),
        b"{\"Success\":true,\"UserId\":-1}".to_vec()
    );
}

#[test]
fn response_formatting_failure_shapes() {
    assert_eq!(
        json_response(false, None, Some(b"Invalid username or password")),
        b"{\"Success\":false,\"ErrorMessage\":\"Invalid username or password\"}".to_vec()
    );
    assert_eq!(json_response(false, None, None), b"{\"Success\":false}".to_vec());
}

#[test]
fn scanner_reads_what_the_formatter_writes() {
    let body = json_response(false, None, Some(b"nope"));
    assert_eq!(parse_json_field(&body, b"ErrorMessage"), Some(b"nope".to_vec()));
}
