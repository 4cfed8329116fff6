use minihttp::parser::{parse_request, ParseOutcome};

fn expect_complete(buf: &[u8]) -> minihttp::parser::ParsedRequest {
    match parse_request(buf) {
        ParseOutcome::Complete(req) => req,
        ParseOutcome::Incomplete => panic!("expected complete parse, got incomplete"),
        ParseOutcome::Malformed => panic!("expected complete parse, got malformed"),
    }
}

#[test]
fn parses_simple_get() {
    let req = expect_complete(b"GET / HTTP/1.1\r\n\r\n");
    assert_eq!(req.method, b"GET");
    assert_eq!(req.path, b"/");
    assert_eq!(req.headers.len(), 0);
}

#[test]
fn parses_method_path_and_headers() {
    let req = expect_complete(b"GET /files/a.txt HTTP/1.1\r\nHost: example\r\nAccept: */*\r\n\r\n");
    assert_eq!(req.method, b"GET");
    assert_eq!(req.path, b"/files/a.txt");
    assert_eq!(req.headers.len(), 2);
    assert_eq!(req.headers[0].0, b"Host");
    assert_eq!(req.headers[0].1, b"example");
    assert_eq!(req.headers[1].0, b"Accept");
    assert_eq!(req.headers[1].1, b"*/*");
}

#[test]
fn parses_post_method() {
    let req = expect_complete(b"POST / HTTP/1.1\r\n\r\n");
    assert_eq!(req.method, b"POST");
    assert_eq!(req.path, b"/");
}

#[test]
fn accepts_http_1_0() {
    let req = expect_complete(b"GET /about HTTP/1.0\r\n\r\n");
    assert_eq!(req.path, b"/about");
}

#[test]
fn skips_leading_spaces_of_header_value() {
    let req = expect_complete(b"GET / HTTP/1.1\r\nHost:   spaced out\r\n\r\n");
    assert_eq!(req.headers[0].0, b"Host");
    assert_eq!(req.headers[0].1, b"spaced out");
}

#[test]
fn empty_buffer_is_incomplete() {
    assert!(matches!(parse_request(b""), ParseOutcome::Incomplete));
}

#[test]
fn truncated_request_line_is_incomplete() {
    assert!(matches!(parse_request(b"GET"), ParseOutcome::Incomplete));
    assert!(matches!(parse_request(b"GET /abo"), ParseOutcome::Incomplete));
    assert!(matches!(parse_request(b"GET / HTTP/1."), ParseOutcome::Incomplete));
}

#[test]
fn missing_final_blank_line_is_incomplete() {
    assert!(matches!(
        parse_request(b"GET / HTTP/1.1\r\nHost: x\r\n"),
        ParseOutcome::Incomplete
    ));
    assert!(matches!(
        parse_request(b"GET / HTTP/1.1\r\nHost: x"),
        ParseOutcome::Incomplete
    ));
}

#[test]
fn leading_space_is_malformed() {
    assert!(matches!(parse_request(b" GET / HTTP/1.1\r\n\r\n"), ParseOutcome::Malformed));
}

#[test]
fn missing_version_is_malformed() {
    assert!(matches!(parse_request(b"GET /\r\n\r\n"), ParseOutcome::Malformed));
}

#[test]
fn wrong_version_is_malformed() {
    assert!(matches!(parse_request(b"GET / HTTP/2.0\r\n\r\n"), ParseOutcome::Malformed));
    assert!(matches!(parse_request(b"GET / HTTP/1.5\r\n\r\n"), ParseOutcome::Malformed));
}

#[test]
fn bare_line_feed_is_malformed() {
    assert!(matches!(parse_request(b"GET / HTTP/1.1\n\n"), ParseOutcome::Malformed));
}

#[test]
fn header_without_colon_is_malformed() {
    assert!(matches!(
        parse_request(b"GET / HTTP/1.1\r\nNoColonHere\r\n\r\n"),
        ParseOutcome::Malformed
    ));
}

#[test]
fn sixty_four_headers_are_accepted() {
    let mut buf: Vec<u8> = b"GET / HTTP/1.1\r\n".to_vec();
    for i in 0..64 {
        buf.extend_from_slice(format!("h{}: v\r\n", i).as_bytes());
    }
    buf.extend_from_slice(b"\r\n");
    let req = expect_complete(&buf);
    assert_eq!(req.headers.len(), 64);
}

#[test]
fn sixty_five_headers_are_malformed() {
    let mut buf: Vec<u8> = b"GET / HTTP/1.1\r\n".to_vec();
    for i in 0..65 {
        buf.extend_from_slice(format!("h{}: v\r\n", i).as_bytes());
    }
    buf.extend_from_slice(b"\r\n");
    assert!(matches!(parse_request(&buf), ParseOutcome::Malformed));
}

#[test]
fn payload_after_headers_is_ignored() {
    let req = expect_complete(b"GET / HTTP/1.1\r\n\r\nsome trailing payload");
    assert_eq!(req.method, b"GET");
    assert_eq!(req.path, b"/");
}
