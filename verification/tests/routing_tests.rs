use minihttp::pages::{about_page, home_page};
use minihttp::resolver::{contains_dotdot, content_type_for, root_joined};
use minihttp::router::{route, RouteDecision};

#[test]
fn routes_home() {
    match route(b"/") {
        RouteDecision::BuiltinPage(status, body) => {
            assert_eq!(status, 200);
            assert_eq!(body, home_page());
        }
        _ => panic!("expected builtin page for /"),
    }
}

#[test]
fn routes_about() {
    match route(b"/about") {
        RouteDecision::BuiltinPage(status, body) => {
            assert_eq!(status, 200);
            assert_eq!(body, about_page());
        }
        _ => panic!("expected builtin page for /about"),
    }
}

#[test]
fn routes_file_request_with_prefix_stripped() {
    match route(b"/files/docs/readme.txt") {
        RouteDecision::FileRequest(rest) => assert_eq!(rest, b"docs/readme.txt"),
        _ => panic!("expected file request"),
    }
}

#[test]
fn routes_files_root() {
    match route(b"/files/") {
        RouteDecision::FileRequest(rest) => assert_eq!(rest, b""),
        _ => panic!("expected file request for the files root"),
    }
}

#[test]
fn unknown_paths_are_not_found() {
    assert!(matches!(route(b"/nope"), RouteDecision::NotFound));
    assert!(matches!(route(b"/files"), RouteDecision::NotFound));
    assert!(matches!(route(b"/about/"), RouteDecision::NotFound));
    assert!(matches!(route(b""), RouteDecision::NotFound));
}

#[test]
fn traversal_guard_finds_dotdot() {
    assert!(contains_dotdot(b".."));
    assert!(contains_dotdot(b"../etc/passwd"));
    assert!(contains_dotdot(b"a/../b"));
    assert!(contains_dotdot(b"a.."));
}

#[test]
fn traversal_guard_passes_clean_paths() {
    assert!(!contains_dotdot(b""));
    assert!(!contains_dotdot(b"."));
    assert!(!contains_dotdot(b"a.b"));
    assert!(!contains_dotdot(b"docs/readme.txt"));
    assert!(!contains_dotdot(b"dot.dot/file"));
}

#[test]
fn joins_onto_serving_root() {
    assert_eq!(root_joined(b"a/b.txt"), b"public/a/b.txt");
    assert_eq!(root_joined(b""), b"public/");
}

#[test]
fn content_types_follow_suffix_table() {
    assert_eq!(content_type_for(b"index.html"), "text/html");
    assert_eq!(content_type_for(b"style.css"), "text/css");
    assert_eq!(content_type_for(b"app.js"), "application/javascript");
    assert_eq!(content_type_for(b"photo.jpg"), "image/jpeg");
    assert_eq!(content_type_for(b"photo.jpeg"), "image/jpeg");
    assert_eq!(content_type_for(b"logo.png"), "image/png");
    assert_eq!(content_type_for(b"anim.gif"), "image/gif");
}

#[test]
fn unknown_extensions_are_raw_bytes() {
    assert_eq!(content_type_for(b"notes.txt"), "application/octet-stream");
    assert_eq!(content_type_for(b"noextension"), "application/octet-stream");
    assert_eq!(content_type_for(b".hidden"), "application/octet-stream");
    assert_eq!(content_type_for(b"dir.d/file"), "application/octet-stream");
    assert_eq!(content_type_for(b"dir/.hidden"), "application/octet-stream");
    assert_eq!(content_type_for(b"sub/page.html"), "text/html");
}
