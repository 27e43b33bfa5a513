use loadtest::json::json_response;
use loadtest::response::{classify_response, parse_login_response, status_is_success,
    transport_failure_outcome};

#[test]
fn parses_success_response() {
    let r = parse_login_response(b"{\"Success\":true,\"UserId\":12345}").unwrap();
    assert!(r.success);
    assert_eq!(r.user_id, Some(12345));
    assert_eq!(r.error_message, None);
}

#[test]
fn parses_all_three_fields_and_whitespace() {
    let r = parse_login_response(
        b" {\"Success\": false , \"UserId\": null, \"ErrorMessage\": \"bad login\"} ",
    )
    .unwrap();
    assert!(!r.success);
    assert_eq!(r.user_id, None);
    assert_eq!(r.error_message, Some(b"bad login".to_vec()));
}

#[test]
fn field_order_does_not_matter() {
    let r = parse_login_response(b"{\"UserId\":7,\"Success\":true}").unwrap();
    assert!(r.success);
    assert_eq!(r.user_id, Some(7));
}

#[test]
fn negative_identifier_parses() {
    let r = parse_login_response(b"{\"Success\":true,\"UserId\":-3}").unwrap();
    assert_eq!(r.user_id, Some(-3));
}

#[test]
fn identifier_shape_is_strict() {
    // Leading zeros are not JSON integers.
    assert!(parse_login_response(b"{\"Success\":true,\"UserId\":007}").is_none());
    // A lone zero is.
    let r = parse_login_response(b"{\"Success\":true,\"UserId\":0}").unwrap();
    assert_eq!(r.user_id, Some(0));
    // A sign without digits is not.
    assert!(parse_login_response(b"{\"Success\":true,\"UserId\":-}").is_none());
    // Oversized identifiers are rejected rather than truncated.
    assert!(
        parse_login_response(b"{\"Success\":true,\"UserId\":1234567890123456789012}").is_none()
    );
}

#[test]
fn identifier_covers_the_full_signed_range() {
    let r = parse_login_response(b"{\"Success\":true,\"UserId\":9223372036854775807}").unwrap();
    assert_eq!(r.user_id, Some(i64::MAX));
    let r = parse_login_response(b"{\"Success\":true,\"UserId\":-9223372036854775808}").unwrap();
    assert_eq!(r.user_id, Some(i64::MIN));
    let r = parse_login_response(b"{\"Success\":true,\"UserId\":1000000000000000000}").unwrap();
    assert_eq!(r.user_id, Some(1_000_000_000_000_000_000));
    // One past either end of the range is another shape.
    assert!(parse_login_response(b"{\"Success\":true,\"UserId\":9223372036854775808}").is_none());
    assert!(
        parse_login_response(b"{\"Success\":true,\"UserId\":-9223372036854775809}").is_none()
    );
}

#[test]
fn rendered_success_responses_parse_back() {
    // What the formatter renders for a successful lookup, the parser
    // accepts as that success, for identifiers across the whole range.
    for id in [0i64, 1, -1, 42, 12345, 1_000_000_000_000_000_000, i64::MAX, i64::MIN] {
        let body = json_response(true, Some(id), None);
        let o = classify_response(200, &body, 5);
        assert!(o.success);
        let r = parse_login_response(&body).unwrap();
        assert!(r.success);
        assert_eq!(r.user_id, Some(id));
        assert_eq!(r.error_message, None);
    }
}

#[test]
fn rejects_malformed_bodies() {
    // Not an object.
    assert!(parse_login_response(b"true").is_none());
    // Missing the required Success field.
    assert!(parse_login_response(b"{}").is_none());
    assert!(parse_login_response(b"{\"UserId\":1}").is_none());
    // Wrong value type.
    assert!(parse_login_response(b"{\"Success\":1}").is_none());
    // Unknown field.
    assert!(parse_login_response(b"{\"Success\":true,\"Extra\":true}").is_none());
    // Duplicate field.
    assert!(parse_login_response(b"{\"Success\":true,\"Success\":true}").is_none());
    // Trailing garbage.
    assert!(parse_login_response(b"{\"Success\":true}x").is_none());
    // Unterminated string.
    assert!(parse_login_response(b"{\"Success\":true,\"ErrorMessage\":\"oops}").is_none());
    // Empty input.
    assert!(parse_login_response(b"").is_none());
}

#[test]
fn error_message_escapes_are_kept_raw() {
    let r = parse_login_response(b"{\"Success\":false,\"ErrorMessage\":\"a\\\"b\"}").unwrap();
    assert_eq!(r.error_message, Some(b"a\\\"b".to_vec()));
}

#[test]
fn status_code_classification() {
    assert!(status_is_success(200));
    assert!(status_is_success(299));
    assert!(!status_is_success(199));
    assert!(!status_is_success(300));
    assert!(!status_is_success(404));
    assert!(!status_is_success(500));
}

#[test]
fn classification_requires_status_flag_and_identifier() {
    let ok_body = b"{\"Success\":true,\"UserId\":1}";
    let o = classify_response(200, ok_body, 1500);
    assert!(o.success);
    assert_eq!(o.latency_micros, 1500);

    // Non-success status fails even with a good body, latency kept.
    let o = classify_response(500, ok_body, 900);
    assert!(!o.success);
    assert_eq!(o.latency_micros, 900);

    // Semantic failure: well-formed body with Success=false.
    let o = classify_response(200, b"{\"Success\":false,\"ErrorMessage\":\"no\"}", 10);
    assert!(!o.success);

    // Success flag without an identifier is not a success.
    let o = classify_response(200, b"{\"Success\":true}", 10);
    assert!(!o.success);
    let o = classify_response(200, b"{\"Success\":true,\"UserId\":null}", 10);
    assert!(!o.success);

    // Unparseable body.
    let o = classify_response(200, b"<html>oops</html>", 10);
    assert!(!o.success);
}

#[test]
fn transport_failure_has_zero_latency() {
    let o = transport_failure_outcome();
    assert!(!o.success);
    assert_eq!(o.latency_micros, 0);
}
