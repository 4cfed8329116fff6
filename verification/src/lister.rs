use vstd::prelude::*;
use vstd::string::StringSliceAdditionalSpecFns;

use crate::util::append_bytes;

verus! {

/// One immediate child of a listed directory. The name is kept as the bytes
/// that are written into the page.
pub struct DirEntry {
    pub name: Vec<u8>,
    pub is_dir: bool,
}

/// The contents of a sequence of entries, as (name, is-directory) pairs.
pub open spec fn entries_view(es: Seq<DirEntry>) -> Seq<(Seq<u8>, bool)> {
    Seq::new(es.len(), |i: int| (es[i].name@, es[i].is_dir))
}

/// The list item for one entry: a directory is linked as `name/` with a
/// trailing slash, a file as `name`.
pub open spec fn entry_html(name: Seq<u8>, dir: bool) -> Seq<u8> {
    if dir {
        ("<li><a href=\"").spec_bytes() + name + ("/\">").spec_bytes() + name + (
        "/</a></li>").spec_bytes()
    } else {
        ("<li><a href=\"").spec_bytes() + name + ("\">").spec_bytes() + name + (
        "</a></li>").spec_bytes()
    }
}

/// The list items of all entries, in order.
pub open spec fn entries_html(es: Seq<(Seq<u8>, bool)>) -> Seq<u8>
    decreases es.len(),
{
    if es.len() == 0 {
        Seq::empty()
    } else {
        entry_html(es[0].0, es[0].1) + entries_html(es.drop_first())
    }
}

/// The parent-directory link, present unless the listed directory is the
/// serving root itself.
pub open spec fn parent_li() -> Seq<u8> {
    ("<li><a href=\"../\">..</a> (Parent Directory)</li>").spec_bytes()
}

/// The display path of the serving root.
pub open spec fn root_rel() -> Seq<u8> {
    ("/files/").spec_bytes()
}

/// The whole listing page for the directory shown as `rel`, with the given
/// immediate children.
pub open spec fn listing_html(rel: Seq<u8>, es: Seq<(Seq<u8>, bool)>) -> Seq<u8> {
    ("<html><body><h1>Directory: ").spec_bytes() + rel + ("</h1><ul>").spec_bytes() + (if rel
        == root_rel() {
        Seq::<u8>::empty()
    } else {
        parent_li()
    }) + entries_html(es) + ("</ul></body></html>").spec_bytes()
}

proof fn lemma_entries_html_snoc(es: Seq<(Seq<u8>, bool)>, i: int)
    requires
        0 <= i < es.len(),
    ensures
        entries_html(es.take(i + 1)) == entries_html(es.take(i)) + entry_html(es[i].0, es[i].1),
    decreases i,
{
    if i == 0 {
        assert(es.take(1).drop_first() =~= Seq::empty());
        assert(es.take(1)[0] == es[0]);
        assert(entries_html(es.take(1)) == entry_html(es[0].0, es[0].1) + entries_html(
            Seq::empty(),
        ));
        assert(entry_html(es[0].0, es[0].1) + Seq::<u8>::empty() =~= entry_html(es[0].0, es[0].1));
        assert(es.take(0) =~= Seq::empty());
        assert(Seq::<u8>::empty() + entry_html(es[0].0, es[0].1) =~= entry_html(es[0].0, es[0].1));
    } else {
        let t = es.drop_first();
        lemma_entries_html_snoc(t, i - 1);
        assert(es.take(i + 1).drop_first() =~= t.take(i));
        assert(es.take(i).drop_first() =~= t.take(i - 1));
        assert(es.take(i + 1)[0] == es[0]);
        assert(es.take(i)[0] == es[0]);
        assert(t[i - 1] == es[i]);
        assert(entry_html(es[0].0, es[0].1) + (entries_html(t.take(i - 1)) + entry_html(
            es[i].0,
            es[i].1,
        )) =~= (entry_html(es[0].0, es[0].1) + entries_html(t.take(i - 1))) + entry_html(
            es[i].0,
            es[i].1,
        ));
    }
}

/// Render the listing page for a directory whose display path is `rel` and
/// whose immediate children are `entries`.
#[verifier::loop_isolation(false)]
#[verifier::rlimit(60)]
pub fn directory_listing(rel: &[u8], entries: &Vec<DirEntry>) -> (r: Vec<u8>)
    ensures
        r@ == listing_html(rel@, entries_view(entries@)),
{
    let mut out: Vec<u8> = Vec::new();
    append_bytes(&mut out, "<html><body><h1>Directory: ".as_bytes());
    append_bytes(&mut out, rel);
    append_bytes(&mut out, "</h1><ul>".as_bytes());
    if !crate::util::bytes_eq(rel, "/files/".as_bytes()) {
        append_bytes(&mut out, "<li><a href=\"../\">..</a> (Parent Directory)</li>".as_bytes());
    }
    let ghost head = out@;
    proof {
        assert(entries_view(entries@).take(0) =~= Seq::<(Seq<u8>, bool)>::empty());
        assert(head + Seq::<u8>::empty() =~= head);
    }
    let mut i: usize = 0;
    while i < entries.len()
        invariant
            i <= entries.len(),
            out@ == head + entries_html(entries_view(entries@).take(i as int)),
        decreases entries.len() - i,
    {
        let e = &entries[i];
        let mut item: Vec<u8> = Vec::new();
        if e.is_dir {
            append_bytes(&mut item, "<li><a href=\"".as_bytes());
            append_bytes(&mut item, e.name.as_slice());
            append_bytes(&mut item, "/\">".as_bytes());
            append_bytes(&mut item, e.name.as_slice());
            append_bytes(&mut item, "/</a></li>".as_bytes());
        } else {
            append_bytes(&mut item, "<li><a href=\"".as_bytes());
            append_bytes(&mut item, e.name.as_slice());
            append_bytes(&mut item, "\">".as_bytes());
            append_bytes(&mut item, e.name.as_slice());
            append_bytes(&mut item, "</a></li>".as_bytes());
        }
        proof {
            assert(item@ =~= entry_html(entries@[i as int].name@, entries@[i as int].is_dir));
        }
        let ghost pre = out@;
        append_bytes(&mut out, item.as_slice());
        proof {
            lemma_entries_html_snoc(entries_view(entries@), i as int);
            assert(entries_view(entries@)[i as int] == (entries@[i as int].name@, entries@[
                i as int].is_dir));
            assert(entries_html(entries_view(entries@).take(i + 1)) == entries_html(
                entries_view(entries@).take(i as int),
            ) + item@);
            assert(head + (entries_html(entries_view(entries@).take(i as int)) + item@) =~= (head
                + entries_html(entries_view(entries@).take(i as int))) + item@);
        }
        i += 1;
    }
    proof {
        assert(entries_view(entries@).take(entries@.len() as int) =~= entries_view(entries@));
    }
    append_bytes(&mut out, "</ul></body></html>".as_bytes());
    proof {
        assert(out@ =~= listing_html(rel@, entries_view(entries@)));
    }
    out
}

} // verus!
