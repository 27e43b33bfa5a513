use loadtest::resolver::{health_url, join_url, parse_port, parse_template, seed_url, token_url};

#[test]
fn rotating_port_marker_resolves_by_index() {
    // port 3001 + (17 mod 16) = 3002.
    let spec = parse_template(b"http://host:%3001/x/".to_vec());
    assert_eq!(spec.resolve_url(17), b"http://host:3002/x/".to_vec());
}

#[test]
fn rotating_port_cycles_over_sixteen_ports() {
    let spec = parse_template(b"http://localhost:%3001/nodejs/".to_vec());
    assert_eq!(spec.resolve_url(0), b"http://localhost:3001/nodejs/".to_vec());
    assert_eq!(spec.resolve_url(15), b"http://localhost:3016/nodejs/".to_vec());
    assert_eq!(spec.resolve_url(16), b"http://localhost:3001/nodejs/".to_vec());
}

#[test]
fn template_without_marker_is_unchanged() {
    let spec = parse_template(b"http://localhost:5000/".to_vec());
    assert_eq!(spec.resolve_url(0), b"http://localhost:5000/".to_vec());
    assert_eq!(spec.resolve_url(17), b"http://localhost:5000/".to_vec());
    assert_eq!(spec.resolve_url(123456), b"http://localhost:5000/".to_vec());
}

#[test]
fn malformed_marker_falls_back_to_literal_template() {
    // No slash after the marker.
    let spec = parse_template(b"http://host:%3001".to_vec());
    assert_eq!(spec.resolve_url(3), b"http://host:%3001".to_vec());
    // Not a number.
    let spec = parse_template(b"http://host:%port/x/".to_vec());
    assert_eq!(spec.resolve_url(3), b"http://host:%port/x/".to_vec());
    // Port out of range.
    let spec = parse_template(b"http://host:%70000/x/".to_vec());
    assert_eq!(spec.resolve_url(3), b"http://host:%70000/x/".to_vec());
}

#[test]
fn port_literal_parsing() {
    assert_eq!(parse_port(b"3001"), Some(3001));
    assert_eq!(parse_port(b"+3001"), Some(3001));
    assert_eq!(parse_port(b"0"), Some(0));
    assert_eq!(parse_port(b"65535"), Some(65535));
    assert_eq!(parse_port(b"65536"), None);
    assert_eq!(parse_port(b""), None);
    assert_eq!(parse_port(b"+"), None);
    assert_eq!(parse_port(b"12a"), None);
    assert_eq!(parse_port(b"-1"), None);
    assert_eq!(parse_port(b"000065535"), Some(65535));
}

#[test]
fn seed_url_strips_markers_and_appends_path() {
    assert_eq!(
        seed_url(b"http://localhost:%3001/nodejs/"),
        b"http://localhost:3001/nodejs/api/auth/create-db".to_vec()
    );
    assert_eq!(
        seed_url(b"http://localhost:5000/"),
        b"http://localhost:5000/api/auth/create-db".to_vec()
    );
}

#[test]
fn endpoint_urls_append_their_paths() {
    assert_eq!(
        token_url(b"http://host:3002/x/"),
        b"http://host:3002/x/api/auth/get-user-token".to_vec()
    );
    assert_eq!(health_url(b"http://h/"), b"http://h//health".to_vec());
    assert_eq!(join_url(b"a/", b"b"), b"a/b".to_vec());
}
