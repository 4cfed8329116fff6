use vstd::prelude::*;
use vstd::slice::slice_to_vec;
use vstd::string::StringSliceAdditionalSpecFns;

use crate::lister::{directory_listing, entries_view, listing_html, root_rel, DirEntry};
use crate::pages::{
    bad_request_line, ct_html, ct_plain, file_not_found_html, file_not_found_page, forbidden_html,
    forbidden_line, forbidden_page, html_content_type, incomplete_body, incomplete_text,
    malformed_body, malformed_text, method_not_allowed_line, not_found_html, not_found_line,
    not_found_page, ok_line, plain_content_type, server_error_html, server_error_line,
    server_error_page, st_bad_request, st_forbidden, st_method_not_allowed, st_not_found, st_ok,
    st_server_error,
};
use crate::parser::{parse_request, parse_spec, ParseOutcome, SpecParse};
use crate::resolver::{contains_dotdot, content_type_for, content_type_spec, has_dotdot};
use crate::response::{build_spec, status_only_spec, HttpResponse, SpecResponse};
use crate::router::{route, route_spec, RouteDecision, SpecRoute};
use crate::util::{append_bytes, bytes_eq};

verus! {

/// Mathematical model of the handler's next step after the read.
pub enum SpecStep {
    /// Close the connection without sending anything.
    Close,
    /// Send this response, then close.
    Respond(SpecResponse),
    /// Look at the filesystem under this root-relative path, then respond.
    FetchFile(Seq<u8>),
}

/// What the connection handler decides to do after the one read from the
/// socket.
pub enum HandlerStep {
    Close,
    Respond(HttpResponse),
    FetchFile(Vec<u8>),
}

impl View for HandlerStep {
    type V = SpecStep;

    open spec fn view(&self) -> SpecStep {
        match self {
            HandlerStep::Close => SpecStep::Close,
            HandlerStep::Respond(resp) => SpecStep::Respond(resp@),
            HandlerStep::FetchFile(seg) => SpecStep::FetchFile(seg@),
        }
    }
}

/// The status line of a builtin page's status code.
pub open spec fn status_line_for(status: int) -> Seq<char> {
    if status == 200 {
        st_ok()
    } else {
        st_not_found()
    }
}

/// The step a GET request's path leads to: the routed builtin page, the
/// not-found page, or — for a file request — the forbidden page when the
/// relative path contains `..`, and otherwise a look at the filesystem.
pub open spec fn get_step_spec(p: Seq<u8>) -> SpecStep {
    match route_spec(p) {
        SpecRoute::BuiltinPage(status, body) => SpecStep::Respond(
            build_spec(status_line_for(status), ct_html(), body),
        ),
        SpecRoute::NotFound => SpecStep::Respond(
            build_spec(st_not_found(), ct_html(), not_found_html()),
        ),
        SpecRoute::FileRequest(seg) => if has_dotdot(seg) {
            SpecStep::Respond(build_spec(st_forbidden(), ct_html(), forbidden_html()))
        } else {
            SpecStep::FetchFile(seg)
        },
    }
}

/// The handler's decision on the bytes of the one read from the socket: an
/// empty read closes silently; an incomplete or malformed request is answered
/// with a fixed 400 response; a complete non-GET request with a bare 405; a
/// complete GET request as the router directs.
pub open spec fn handle_spec(b: Seq<u8>) -> SpecStep {
    if b.len() == 0 {
        SpecStep::Close
    } else {
        match parse_spec(b) {
            SpecParse::Incomplete => SpecStep::Respond(
                build_spec(st_bad_request(), ct_plain(), incomplete_text()),
            ),
            SpecParse::Malformed => SpecStep::Respond(
                build_spec(st_bad_request(), ct_plain(), malformed_text()),
            ),
            SpecParse::Complete(req) => {
                if req.method != ("GET").spec_bytes() {
                    SpecStep::Respond(status_only_spec(st_method_not_allowed()))
                } else {
                    get_step_spec(req.path)
                }
            },
        }
    }
}

/// Decide the step for one GET request path.
pub fn get_step(path: &[u8]) -> (r: HandlerStep)
    ensures
        r@ == get_step_spec(path@),
{
    match route(path) {
        RouteDecision::BuiltinPage(status, body) => {
            let line = if status == 200 {
                ok_line()
            } else {
                not_found_line()
            };
            let bytes = slice_to_vec(body.as_str().as_bytes());
            HandlerStep::Respond(HttpResponse::build(line, html_content_type(), bytes))
        },
        RouteDecision::NotFound => {
            let bytes = slice_to_vec(not_found_page().as_bytes());
            HandlerStep::Respond(
                HttpResponse::build(not_found_line(), html_content_type(), bytes),
            )
        },
        RouteDecision::FileRequest(seg) => {
            if contains_dotdot(seg.as_slice()) {
                let bytes = slice_to_vec(forbidden_page().as_bytes());
                HandlerStep::Respond(
                    HttpResponse::build(forbidden_line(), html_content_type(), bytes),
                )
            } else {
                HandlerStep::FetchFile(seg)
            }
        },
    }
}

/// Decide what to do with the bytes of the one read from the socket.
pub fn on_read(buf: &[u8]) -> (r: HandlerStep)
    ensures
        r@ == handle_spec(buf@),
{
    if buf.len() == 0 {
        return HandlerStep::Close;
    }
    match parse_request(buf) {
        ParseOutcome::Incomplete => {
            let bytes = slice_to_vec(incomplete_body().as_bytes());
            HandlerStep::Respond(
                HttpResponse::build(bad_request_line(), plain_content_type(), bytes),
            )
        },
        ParseOutcome::Malformed => {
            let bytes = slice_to_vec(malformed_body().as_bytes());
            HandlerStep::Respond(
                HttpResponse::build(bad_request_line(), plain_content_type(), bytes),
            )
        },
        ParseOutcome::Complete(req) => {
            if !bytes_eq(req.method.as_slice(), "GET".as_bytes()) {
                HandlerStep::Respond(HttpResponse::status_only(method_not_allowed_line()))
            } else {
                get_step(req.path.as_slice())
            }
        },
    }
}

/// What the filesystem said about the requested path; built outside and
/// handed in as plain values.
pub enum ResolvedTarget {
    /// A regular file, with its full contents.
    RegularFile(Vec<u8>),
    /// A directory, with its immediate children.
    Directory(Vec<DirEntry>),
    /// The path does not exist or could not be opened.
    Missing,
    /// The path is a directory whose entries could not be read.
    Unreadable,
    /// The path resolves to somewhere outside the serving root.
    Outside,
}

/// Mathematical model of the filesystem's answer.
pub enum SpecTarget {
    RegularFile(Seq<u8>),
    Directory(Seq<(Seq<u8>, bool)>),
    Missing,
    Unreadable,
    Outside,
}

impl View for ResolvedTarget {
    type V = SpecTarget;

    open spec fn view(&self) -> SpecTarget {
        match self {
            ResolvedTarget::RegularFile(content) => SpecTarget::RegularFile(content@),
            ResolvedTarget::Directory(entries) => SpecTarget::Directory(entries_view(entries@)),
            ResolvedTarget::Missing => SpecTarget::Missing,
            ResolvedTarget::Unreadable => SpecTarget::Unreadable,
            ResolvedTarget::Outside => SpecTarget::Outside,
        }
    }
}

/// The display path of the directory at root-relative path `seg`: the files
/// prefix alone for the root, and otherwise the prefix, the path and a
/// trailing slash.
pub open spec fn rel_display(seg: Seq<u8>) -> Seq<u8> {
    if seg.len() == 0 {
        root_rel()
    } else {
        root_rel() + seg + ("/").spec_bytes()
    }
}

/// The response to a file request once the filesystem has answered: a file is
/// sent verbatim under its extension's content type; a directory as the
/// listing page; a missing path as the file-not-found page; an unreadable
/// directory as the server-error page; a path that resolves outside the
/// serving root as the forbidden page.
pub open spec fn probe_spec(seg: Seq<u8>, t: SpecTarget) -> SpecResponse {
    match t {
        SpecTarget::RegularFile(content) => build_spec(st_ok(), content_type_spec(seg), content),
        SpecTarget::Directory(es) => build_spec(
            st_ok(),
            ct_html(),
            listing_html(rel_display(seg), es),
        ),
        SpecTarget::Missing => build_spec(st_not_found(), ct_html(), file_not_found_html()),
        SpecTarget::Unreadable => build_spec(st_server_error(), ct_html(), server_error_html()),
        SpecTarget::Outside => build_spec(st_forbidden(), ct_html(), forbidden_html()),
    }
}

/// The display path of the directory at root-relative path `seg`.
pub fn rel_display_bytes(seg: &[u8]) -> (r: Vec<u8>)
    ensures
        r@ == rel_display(seg@),
{
    if seg.len() == 0 {
        let r = slice_to_vec("/files/".as_bytes());
        r
    } else {
        let mut r = slice_to_vec("/files/".as_bytes());
        append_bytes(&mut r, seg);
        append_bytes(&mut r, "/".as_bytes());
        r
    }
}

/// Build the response to a file request from the filesystem's answer.
pub fn on_probe(seg: &[u8], target: ResolvedTarget) -> (r: HttpResponse)
    ensures
        r@ == probe_spec(seg@, target@),
{
    match target {
        ResolvedTarget::RegularFile(content) => {
            let ctype = content_type_for(seg);
            HttpResponse::build(ok_line(), ctype, content)
        },
        ResolvedTarget::Directory(entries) => {
            let rel = rel_display_bytes(seg);
            let body = directory_listing(rel.as_slice(), &entries);
            HttpResponse::build(ok_line(), html_content_type(), body)
        },
        ResolvedTarget::Missing => {
            let bytes = slice_to_vec(file_not_found_page().as_bytes());
            HttpResponse::build(not_found_line(), html_content_type(), bytes)
        },
        ResolvedTarget::Unreadable => {
            let bytes = slice_to_vec(server_error_page().as_bytes());
            HttpResponse::build(server_error_line(), html_content_type(), bytes)
        },
        ResolvedTarget::Outside => {
            let bytes = slice_to_vec(forbidden_page().as_bytes());
            HttpResponse::build(forbidden_line(), html_content_type(), bytes)
        },
    }
}

} // verus!
