use vstd::prelude::*;
use vstd::slice::{slice_subrange, slice_to_vec};
use vstd::string::StringSliceAdditionalSpecFns;
use vstd::utf8::encode_utf8;

use crate::pages::{about_html, about_page, home_html, home_page};
use crate::util::{bytes_eq, bytes_starts_with};

verus! {

/// Mathematical model of a routing decision.
pub enum SpecRoute {
    /// Status code and body bytes of a hardcoded page.
    BuiltinPage(int, Seq<u8>),
    /// Path relative to the serving root, taken from behind the files prefix.
    FileRequest(Seq<u8>),
    NotFound,
}

/// What the router decides for one request path.
pub enum RouteDecision {
    BuiltinPage(u16, String),
    FileRequest(Vec<u8>),
    NotFound,
}

impl View for RouteDecision {
    type V = SpecRoute;

    open spec fn view(&self) -> SpecRoute {
        match self {
            RouteDecision::BuiltinPage(status, body) => SpecRoute::BuiltinPage(
                *status as int,
                encode_utf8(body@),
            ),
            RouteDecision::FileRequest(rest) => SpecRoute::FileRequest(rest@),
            RouteDecision::NotFound => SpecRoute::NotFound,
        }
    }
}

/// The URL prefix under which the filesystem is served.
pub open spec fn files_prefix() -> Seq<u8> {
    ("/files/").spec_bytes()
}

pub open spec fn is_files_path(p: Seq<u8>) -> bool {
    p.len() >= files_prefix().len() && p.subrange(0, files_prefix().len() as int) == files_prefix()
}

/// The route of a path: `/` and `/about` are builtin pages with status 200,
/// a path behind the files prefix is a file request for the rest of the path,
/// anything else is not found.
pub open spec fn route_spec(p: Seq<u8>) -> SpecRoute {
    if p == ("/").spec_bytes() {
        SpecRoute::BuiltinPage(200, home_html())
    } else if p == ("/about").spec_bytes() {
        SpecRoute::BuiltinPage(200, about_html())
    } else if is_files_path(p) {
        SpecRoute::FileRequest(p.subrange(files_prefix().len() as int, p.len() as int))
    } else {
        SpecRoute::NotFound
    }
}

/// Map a request path to its routing decision. Pure: no filesystem access.
pub fn route(path: &[u8]) -> (r: RouteDecision)
    ensures
        r@ == route_spec(path@),
{
    if bytes_eq(path, "/".as_bytes()) {
        RouteDecision::BuiltinPage(200, String::from_str(home_page()))
    } else if bytes_eq(path, "/about".as_bytes()) {
        RouteDecision::BuiltinPage(200, String::from_str(about_page()))
    } else {
        let prefix: &[u8] = "/files/".as_bytes();
        if bytes_starts_with(path, prefix) {
            let rest = slice_to_vec(slice_subrange(path, prefix.len(), path.len()));
            RouteDecision::FileRequest(rest)
        } else {
            RouteDecision::NotFound
        }
    }
}

} // verus!
