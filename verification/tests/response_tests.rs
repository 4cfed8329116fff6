use minihttp::lister::{directory_listing, DirEntry};
use minihttp::response::HttpResponse;
use minihttp::util::usize_to_string;

#[test]
fn renders_small_numbers() {
    assert_eq!(usize_to_string(0), "0");
    assert_eq!(usize_to_string(7), "7");
    assert_eq!(usize_to_string(10), "10");
    assert_eq!(usize_to_string(27), "27");
    assert_eq!(usize_to_string(1234), "1234");
    assert_eq!(usize_to_string(1000000), "1000000");
}

#[test]
fn builds_response_with_exact_wire_bytes() {
    let resp = HttpResponse::build("HTTP/1.1 200 OK", "text/html", b"hi".to_vec());
    assert_eq!(resp.status_line, "HTTP/1.1 200 OK");
    assert_eq!(resp.body, b"hi");
    assert_eq!(resp.headers.len(), 3);
    assert_eq!(resp.headers[0].0, "Content-Length");
    assert_eq!(resp.headers[0].1, "2");
    assert_eq!(resp.headers[1].0, "Content-Type");
    assert_eq!(resp.headers[1].1, "text/html");
    assert_eq!(resp.headers[2].0, "Connection");
    assert_eq!(resp.headers[2].1, "close");
    let expected =
        b"HTTP/1.1 200 OK\r\nContent-Length: 2\r\nContent-Type: text/html\r\nConnection: close\r\n\r\nhi";
    assert_eq!(resp.to_bytes(), expected);
}

#[test]
fn content_length_counts_body_bytes() {
    let body = vec![0u8; 4096];
    let resp = HttpResponse::build("HTTP/1.1 200 OK", "application/octet-stream", body.clone());
    assert_eq!(resp.headers[0].1, "4096");
    let wire = resp.to_bytes();
    assert!(wire.ends_with(&body));
}

#[test]
fn empty_body_has_zero_content_length() {
    let resp = HttpResponse::build("HTTP/1.1 200 OK", "text/plain", Vec::new());
    assert_eq!(resp.headers[0].1, "0");
}

#[test]
fn status_only_response_is_line_and_blank() {
    let resp = HttpResponse::status_only("HTTP/1.1 405 Method Not Allowed");
    assert_eq!(resp.to_bytes(), b"HTTP/1.1 405 Method Not Allowed\r\n\r\n");
}

#[test]
fn lists_entries_with_parent_link() {
    let entries = vec![
        DirEntry { name: b"sub".to_vec(), is_dir: true },
        DirEntry { name: b"a.txt".to_vec(), is_dir: false },
    ];
    let html = directory_listing(b"/files/docs/", &entries);
    let expected = format!(
        "<html><body><h1>Directory: /files/docs/</h1><ul>{}{}{}</ul></body></html>",
        "<li><a href=\"../\">..</a> (Parent Directory)</li>",
        "<li><a href=\"sub/\">sub/</a></li>",
        "<li><a href=\"a.txt\">a.txt</a></li>",
    );
    assert_eq!(html, expected.as_bytes());
}

#[test]
fn root_listing_has_no_parent_link() {
    let entries = vec![DirEntry { name: b"a.txt".to_vec(), is_dir: false }];
    let html = directory_listing(b"/files/", &entries);
    let expected = "<html><body><h1>Directory: /files/</h1><ul>\
                    <li><a href=\"a.txt\">a.txt</a></li></ul></body></html>";
    assert_eq!(html, expected.as_bytes());
}

#[test]
fn empty_directory_lists_nothing() {
    let entries: Vec<DirEntry> = Vec::new();
    let html = directory_listing(b"/files/", &entries);
    assert_eq!(html, b"<html><body><h1>Directory: /files/</h1><ul></ul></body></html>");
}
