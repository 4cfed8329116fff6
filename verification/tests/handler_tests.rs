use minihttp::handler::{on_probe, on_read, HandlerStep, ResolvedTarget};
use minihttp::lister::{directory_listing, DirEntry};
use minihttp::pages::{
    about_page, file_not_found_page, forbidden_page, home_page, not_found_page, server_error_page,
};
use minihttp::response::HttpResponse;

fn expect_respond(step: HandlerStep) -> HttpResponse {
    match step {
        HandlerStep::Respond(resp) => resp,
        HandlerStep::Close => panic!("expected a response, got a silent close"),
        HandlerStep::FetchFile(_) => panic!("expected a response, got a filesystem fetch"),
    }
}

#[test]
fn empty_read_closes_without_response() {
    assert!(matches!(on_read(b""), HandlerStep::Close));
}

#[test]
fn get_home_is_served() {
    let resp = expect_respond(on_read(b"GET / HTTP/1.1\r\nHost: x\r\n\r\n"));
    assert_eq!(resp.status_line, "HTTP/1.1 200 OK");
    assert_eq!(resp.body, home_page().as_bytes());
    assert_eq!(resp.headers[0].1, home_page().len().to_string());
}

#[test]
fn get_about_exact_response() {
    let resp = expect_respond(on_read(b"GET /about HTTP/1.1\r\n\r\n"));
    let expected = format!(
        "HTTP/1.1 200 OK\r\nContent-Length: {}\r\nContent-Type: text/html\r\nConnection: close\r\n\r\n{}",
        about_page().len(),
        about_page(),
    );
    assert_eq!(resp.to_bytes(), expected.as_bytes());
}

#[test]
fn unknown_path_gets_not_found_page() {
    let resp = expect_respond(on_read(b"GET /missing HTTP/1.1\r\n\r\n"));
    assert_eq!(resp.status_line, "HTTP/1.1 404 NOT FOUND");
    assert_eq!(resp.body, not_found_page().as_bytes());
}

#[test]
fn post_is_method_not_allowed() {
    let resp = expect_respond(on_read(b"POST / HTTP/1.1\r\n\r\n"));
    assert_eq!(resp.to_bytes(), b"HTTP/1.1 405 Method Not Allowed\r\n\r\n");
}

#[test]
fn delete_is_method_not_allowed_on_any_path() {
    let resp = expect_respond(on_read(b"DELETE /files/a.txt HTTP/1.1\r\n\r\n"));
    assert_eq!(resp.status_line, "HTTP/1.1 405 Method Not Allowed");
    assert!(resp.headers.is_empty());
    assert!(resp.body.is_empty());
}

#[test]
fn traversal_is_forbidden_without_filesystem_fetch() {
    let step = on_read(b"GET /files/../etc/passwd HTTP/1.1\r\n\r\n");
    assert!(!matches!(step, HandlerStep::FetchFile(_)));
    let resp = expect_respond(step);
    assert_eq!(resp.status_line, "HTTP/1.1 403 Forbidden");
    assert_eq!(resp.body, forbidden_page().as_bytes());
}

#[test]
fn file_request_fetches_relative_path() {
    match on_read(b"GET /files/docs/a.txt HTTP/1.1\r\n\r\n") {
        HandlerStep::FetchFile(seg) => assert_eq!(seg, b"docs/a.txt"),
        _ => panic!("expected a filesystem fetch"),
    }
}

#[test]
fn missing_file_is_not_found() {
    let resp = on_probe(b"missing.txt", ResolvedTarget::Missing);
    assert_eq!(resp.status_line, "HTTP/1.1 404 NOT FOUND");
    assert_eq!(resp.body, file_not_found_page().as_bytes());
}

#[test]
fn served_file_round_trips_bytes() {
    let content = vec![0u8, 159, 146, 150, 13, 10, 0, 255];
    let resp = on_probe(b"blob.png", ResolvedTarget::RegularFile(content.clone()));
    assert_eq!(resp.status_line, "HTTP/1.1 200 OK");
    assert_eq!(resp.headers[1].1, "image/png");
    assert_eq!(resp.headers[0].1, content.len().to_string());
    assert_eq!(resp.body, content);
}

#[test]
fn served_html_file_has_html_content_type() {
    let resp = on_probe(b"page.html", ResolvedTarget::RegularFile(b"<p>x</p>".to_vec()));
    assert_eq!(resp.headers[1].1, "text/html");
    assert_eq!(resp.body, b"<p>x</p>");
}

#[test]
fn directory_is_listed_with_parent_link() {
    let entries = vec![
        DirEntry { name: b"inner".to_vec(), is_dir: true },
        DirEntry { name: b"file.txt".to_vec(), is_dir: false },
    ];
    let resp = on_probe(b"docs", ResolvedTarget::Directory(entries));
    assert_eq!(resp.status_line, "HTTP/1.1 200 OK");
    assert_eq!(resp.headers[1].1, "text/html");
    let same = vec![
        DirEntry { name: b"inner".to_vec(), is_dir: true },
        DirEntry { name: b"file.txt".to_vec(), is_dir: false },
    ];
    assert_eq!(resp.body, directory_listing(b"/files/docs/", &same));
    let text = String::from_utf8(resp.body.clone()).unwrap();
    assert!(text.contains("<li><a href=\"../\">..</a> (Parent Directory)</li>"));
    assert!(text.contains("<li><a href=\"inner/\">inner/</a></li>"));
    assert!(text.contains("<li><a href=\"file.txt\">file.txt</a></li>"));
}

#[test]
fn root_directory_listing_has_no_parent_link() {
    let entries = vec![DirEntry { name: b"file.txt".to_vec(), is_dir: false }];
    let resp = on_probe(b"", ResolvedTarget::Directory(entries));
    let text = String::from_utf8(resp.body).unwrap();
    assert!(text.contains("Directory: /files/"));
    assert!(!text.contains("Parent Directory"));
}

#[test]
fn path_outside_root_is_forbidden() {
    let resp = on_probe(b"sneaky-symlink", ResolvedTarget::Outside);
    assert_eq!(resp.status_line, "HTTP/1.1 403 Forbidden");
    assert_eq!(resp.body, forbidden_page().as_bytes());
}

#[test]
fn unreadable_directory_is_server_error() {
    let resp = on_probe(b"locked", ResolvedTarget::Unreadable);
    assert_eq!(resp.status_line, "HTTP/1.1 500 Internal Server Error");
    assert_eq!(resp.body, server_error_page().as_bytes());
}

#[test]
fn incomplete_request_gets_fixed_400() {
    let resp = expect_respond(on_read(b"GET / HTTP/1.1\r\n"));
    assert_eq!(resp.status_line, "HTTP/1.1 400 Bad Request");
    assert_eq!(resp.body, b"Incomplete request received");
    assert_eq!(resp.headers[0].1, "27");
    assert_eq!(resp.headers[1].1, "text/plain");
}

#[test]
fn malformed_request_gets_fixed_400() {
    let resp = expect_respond(on_read(b"NOT AN HTTP REQUEST\r\n\r\n"));
    assert_eq!(resp.status_line, "HTTP/1.1 400 Bad Request");
    assert_eq!(resp.body, b"Malformed HTTP request");
    assert_eq!(resp.headers[0].1, "22");
}
