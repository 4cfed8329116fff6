use vstd::prelude::*;
use vstd::string::StringSliceAdditionalSpecFns;
use vstd::utf8::{is_ascii_chars, is_ascii_chars_encode_utf8};

use crate::handler::{handle_spec, probe_spec, rel_display, SpecStep, SpecTarget};
use crate::lister::{entries_html, entry_html, listing_html, parent_li, root_rel};
use crate::pages::{
    about_html, ct_html, forbidden_html, home_html, not_found_html, st_forbidden,
    st_method_not_allowed, st_not_found, st_ok,
};
use crate::parser::{parse_spec, SpecParse};
use crate::resolver::{content_type_spec, has_dotdot};
use crate::response::{build_spec, status_only_spec};
use crate::router::{files_prefix, is_files_path, route_spec, SpecRoute};
use crate::util::{contains_seq, dec_chars};

verus! {

/// The byte lengths of the route literals, needed to tell the routes apart.
proof fn lemma_route_literal_lengths()
    ensures
        ("/").spec_bytes().len() == 1,
        ("/about").spec_bytes().len() == 6,
        files_prefix().len() == 7,
{
    reveal_strlit("/");
    reveal_strlit("/about");
    reveal_strlit("/files/");
    assert(is_ascii_chars(("/")@));
    assert(is_ascii_chars(("/about")@));
    assert(is_ascii_chars(("/files/")@));
    is_ascii_chars_encode_utf8(("/")@);
    is_ascii_chars_encode_utf8(("/about")@);
    is_ascii_chars_encode_utf8(("/files/")@);
}

/// A GET request for a supported page (`/` or `/about`) is answered with
/// status 200, the page's own body, and a Content-Length header that is the
/// decimal byte length of that body.
pub proof fn lemma_supported_page_ok(b: Seq<u8>)
    requires
        parse_spec(b) matches SpecParse::Complete(req) && req.method == ("GET").spec_bytes() && (
        req.path == ("/").spec_bytes() || req.path == ("/about").spec_bytes()),
    ensures
        handle_spec(b) matches SpecStep::Respond(resp) && resp.status_line == st_ok()
            && (resp.body == home_html() || resp.body == about_html()) && resp.headers[0] == ((
        "Content-Length")@, dec_chars(resp.body.len() as int)),
{
    lemma_route_literal_lengths();
    let req = parse_spec(b)->Complete_0;
    assert(b.len() != 0);
    if req.path == ("/").spec_bytes() {
        assert(route_spec(req.path) == SpecRoute::BuiltinPage(200, home_html()));
    } else {
        assert(req.path != ("/").spec_bytes());
        assert(route_spec(req.path) == SpecRoute::BuiltinPage(200, about_html()));
    }
}

/// A GET request for a path that matches no route and is not a file request
/// is answered with the 404 page.
pub proof fn lemma_unrouted_path_not_found(b: Seq<u8>)
    requires
        parse_spec(b) matches SpecParse::Complete(req) && req.method == ("GET").spec_bytes()
            && req.path != ("/").spec_bytes() && req.path != ("/about").spec_bytes()
            && !is_files_path(req.path),
    ensures
        handle_spec(b) == SpecStep::Respond(build_spec(st_not_found(), ct_html(), not_found_html())),
{
    let req = parse_spec(b)->Complete_0;
    assert(b.len() != 0);
    assert(route_spec(req.path) == SpecRoute::NotFound);
}

/// A complete request whose method is anything but `GET` is answered with the
/// bare 405 response, whatever its path.
pub proof fn lemma_non_get_method_not_allowed(b: Seq<u8>)
    requires
        parse_spec(b) matches SpecParse::Complete(req) && req.method != ("GET").spec_bytes(),
    ensures
        handle_spec(b) == SpecStep::Respond(status_only_spec(st_method_not_allowed())),
{
    assert(b.len() != 0);
}

/// A GET file request whose relative path contains `..` is answered with the
/// 403 page at once: the handler's step is a response, not a filesystem
/// fetch, so no filesystem access is attempted.
pub proof fn lemma_dotdot_forbidden(b: Seq<u8>)
    requires
        parse_spec(b) matches SpecParse::Complete(req) && req.method == ("GET").spec_bytes()
            && is_files_path(req.path) && has_dotdot(
            req.path.subrange(files_prefix().len() as int, req.path.len() as int),
        ),
    ensures
        handle_spec(b) == SpecStep::Respond(build_spec(st_forbidden(), ct_html(), forbidden_html())),
{
    lemma_route_literal_lengths();
    let req = parse_spec(b)->Complete_0;
    assert(b.len() != 0);
    assert(req.path.len() >= 7);
    assert(req.path != ("/").spec_bytes());
    assert(req.path != ("/about").spec_bytes());
    let seg = req.path.subrange(files_prefix().len() as int, req.path.len() as int);
    assert(route_spec(req.path) == SpecRoute::FileRequest(seg));
}

/// A served file is sent back verbatim — the body is exactly the file's bytes
/// — under the content type of the path's extension, with status 200.
pub proof fn lemma_file_served_verbatim(seg: Seq<u8>, content: Seq<u8>)
    ensures
        probe_spec(seg, SpecTarget::RegularFile(content)) == build_spec(
            st_ok(),
            content_type_spec(seg),
            content,
        ),
        probe_spec(seg, SpecTarget::RegularFile(content)).body == content,
{
}

/// `sub` occurs inside `mid`, so it occurs inside `a + mid + c`.
proof fn lemma_contains_through_concat(a: Seq<u8>, mid: Seq<u8>, c: Seq<u8>, sub: Seq<u8>)
    requires
        contains_seq(mid, sub),
    ensures
        contains_seq(a + mid + c, sub),
{
    let i = choose|i: int|
        0 <= i && i + sub.len() <= mid.len() && #[trigger] mid.subrange(i, i + sub.len()) == sub;
    let j = a.len() + i;
    assert((a + mid + c).subrange(j as int, j + sub.len()) =~= mid.subrange(i, i + sub.len()));
}

/// Each entry's list item occurs in the rendered items of the whole entry
/// sequence.
proof fn lemma_entries_html_contains(es: Seq<(Seq<u8>, bool)>, i: int)
    requires
        0 <= i < es.len(),
    ensures
        contains_seq(entries_html(es), entry_html(es[i].0, es[i].1)),
    decreases i,
{
    let head = entry_html(es[0].0, es[0].1);
    let rest = entries_html(es.drop_first());
    assert(entries_html(es) == head + rest);
    if i == 0 {
        assert((head + rest).subrange(0, 0 + head.len() as int) =~= head);
        assert(contains_seq(head + rest, head));
    } else {
        lemma_entries_html_contains(es.drop_first(), i - 1);
        let sub = entry_html(es[i].0, es[i].1);
        assert(es.drop_first()[i - 1] == es[i]);
        let j = choose|j: int|
            0 <= j && j + sub.len() <= rest.len() && #[trigger] rest.subrange(j, j + sub.len())
                == sub;
        assert((head + rest).subrange(head.len() + j, head.len() + j + sub.len()) =~= rest.subrange(
            j,
            j + sub.len(),
        ));
        assert(contains_seq(head + rest, sub));
    }
}

/// Every sequence occurs inside itself.
proof fn lemma_contains_self(s: Seq<u8>)
    ensures
        contains_seq(s, s),
{
    assert(s.subrange(0, 0 + s.len() as int) =~= s);
    assert(contains_seq(s, s));
}

/// A directory is answered with status 200 and the listing page; the page
/// contains one list item per immediate child, and the parent-directory link
/// exactly when the directory is not the serving root.
pub proof fn lemma_directory_listing_complete(seg: Seq<u8>, es: Seq<(Seq<u8>, bool)>)
    ensures
        probe_spec(seg, SpecTarget::Directory(es)) == build_spec(
            st_ok(),
            ct_html(),
            listing_html(rel_display(seg), es),
        ),
        forall|i: int|
            0 <= i < es.len() ==> contains_seq(
                listing_html(rel_display(seg), es),
                entry_html(es[i].0, es[i].1),
            ),
        rel_display(seg) != root_rel() ==> contains_seq(
            listing_html(rel_display(seg), es),
            parent_li(),
        ),
{
    let rel = rel_display(seg);
    let pre = ("<html><body><h1>Directory: ").spec_bytes() + rel + ("</h1><ul>").spec_bytes() + (
    if rel == root_rel() {
        Seq::<u8>::empty()
    } else {
        parent_li()
    });
    let post = ("</ul></body></html>").spec_bytes();
    assert(listing_html(rel, es) =~= pre + entries_html(es) + post);
    assert forall|i: int| 0 <= i < es.len() implies contains_seq(
        listing_html(rel, es),
        entry_html(es[i].0, es[i].1),
    ) by {
        lemma_entries_html_contains(es, i);
        lemma_contains_through_concat(pre, entries_html(es), post, entry_html(es[i].0, es[i].1));
    }
    if rel != root_rel() {
        let pre2 = ("<html><body><h1>Directory: ").spec_bytes() + rel + ("</h1><ul>").spec_bytes();
        let post2 = entries_html(es) + post;
        assert(listing_html(rel, es) =~= pre2 + parent_li() + post2);
        lemma_contains_self(parent_li());
        lemma_contains_through_concat(pre2, parent_li(), post2, parent_li());
    }
}

/// The handler closes the connection without any response exactly when the
/// one read from the socket yielded no bytes.
pub proof fn lemma_close_iff_empty_read(b: Seq<u8>)
    ensures
        (handle_spec(b) == SpecStep::Close) <==> b.len() == 0,
{
    if b.len() != 0 {
        match parse_spec(b) {
            SpecParse::Complete(req) => {
                if req.method == ("GET").spec_bytes() {
                    match route_spec(req.path) {
                        SpecRoute::BuiltinPage(status, body) => {
                            assert(handle_spec(b) matches SpecStep::Respond(_));
                        },
                        SpecRoute::NotFound => {
                            assert(handle_spec(b) matches SpecStep::Respond(_));
                        },
                        SpecRoute::FileRequest(seg) => {
                            assert(!(handle_spec(b) matches SpecStep::Close));
                        },
                    }
                }
            },
            SpecParse::Incomplete => {},
            SpecParse::Malformed => {},
        }
    }
}

} // verus!
