use vstd::prelude::*;
use vstd::slice::{slice_subrange, slice_to_vec};
use vstd::string::StringSliceAdditionalSpecFns;

use crate::util::{append_bytes, bytes_eq};

verus! {

/// The relative path contains the two-byte run `..` somewhere.
pub open spec fn has_dotdot(s: Seq<u8>) -> bool {
    exists|i: int| 0 <= i && i + 2 <= s.len() && #[trigger] s[i] == 46 && s[i + 1] == 46
}

/// Traversal guard: does the relative path contain `..`? Runs on the path
/// bytes alone, before any filesystem access.
pub fn contains_dotdot(s: &[u8]) -> (r: bool)
    ensures
        r == has_dotdot(s@),
{
    if s.len() < 2 {
        assert(!has_dotdot(s@));
        return false;
    }
    let mut i: usize = 0;
    while i <= s.len() - 2
        invariant
            2 <= s@.len(),
            i <= s.len(),
            forall|j: int| 0 <= j < i ==> !(#[trigger] s@[j] == 46 && s@[j + 1] == 46),
        decreases s.len() - i,
    {
        if s[i] == 46 && s[i + 1] == 46 {
            assert(has_dotdot(s@));
            return true;
        }
        i += 1;
    }
    assert(!has_dotdot(s@));
    false
}

/// The fixed directory under which files are served.
pub open spec fn serving_root() -> Seq<u8> {
    ("public/").spec_bytes()
}

pub fn serving_root_path() -> (r: &'static str)
    ensures
        r.spec_bytes() == serving_root(),
{
    "public/"
}

/// Join a relative path onto the serving root.
pub fn root_joined(seg: &[u8]) -> (r: Vec<u8>)
    ensures
        r@ == serving_root() + seg@,
{
    let mut out = slice_to_vec("public/".as_bytes());
    append_bytes(&mut out, seg);
    out
}

/// The position of the last occurrence of `b` in `p`, or -1 when absent.
pub open spec fn last_index_of(p: Seq<u8>, b: u8) -> int
    decreases p.len(),
{
    if p.len() == 0 {
        -1
    } else if p[p.len() - 1] == b {
        p.len() - 1
    } else {
        last_index_of(p.drop_last(), b)
    }
}

fn last_index_exec(p: &[u8], b: u8) -> (r: Option<usize>)
    ensures
        match r {
            Some(k) => last_index_of(p@, b) == k as int,
            None => last_index_of(p@, b) == -1,
        },
{
    let mut i: usize = p.len();
    proof {
        assert(p@.take(p@.len() as int) =~= p@);
    }
    while i > 0
        invariant
            i <= p@.len(),
            last_index_of(p@, b) == last_index_of(p@.take(i as int), b),
        decreases i,
    {
        if p[i - 1] == b {
            proof {
                assert(p@.take(i as int)[i - 1] == p@[i - 1]);
            }
            return Some(i - 1);
        }
        proof {
            assert(p@.take(i as int).drop_last() =~= p@.take(i - 1));
            assert(p@.take(i as int)[i - 1] == p@[i - 1]);
        }
        i -= 1;
    }
    proof {
        assert(p@.take(0) =~= Seq::<u8>::empty());
    }
    None
}

/// The content type for a served file, from the extension of its path: the
/// bytes after the last dot of the last path component, provided that dot is
/// neither the component's first byte nor absent. Unknown or missing
/// extensions are served as raw bytes.
pub open spec fn content_type_spec(p: Seq<u8>) -> Seq<char> {
    let d = last_index_of(p, 46);
    let s = last_index_of(p, 47);
    if d <= s + 1 {
        ("application/octet-stream")@
    } else {
        let e = p.subrange(d + 1, p.len() as int);
        if e == ("html").spec_bytes() {
            ("text/html")@
        } else if e == ("css").spec_bytes() {
            ("text/css")@
        } else if e == ("js").spec_bytes() {
            ("application/javascript")@
        } else if e == ("jpg").spec_bytes() || e == ("jpeg").spec_bytes() {
            ("image/jpeg")@
        } else if e == ("png").spec_bytes() {
            ("image/png")@
        } else if e == ("gif").spec_bytes() {
            ("image/gif")@
        } else {
            ("application/octet-stream")@
        }
    }
}

proof fn lemma_last_index_bounds(p: Seq<u8>, b: u8)
    ensures
        -1 <= last_index_of(p, b) < p.len(),
    decreases p.len(),
{
    if p.len() > 0 && p[p.len() - 1] != b {
        lemma_last_index_bounds(p.drop_last(), b);
    }
}

/// Pick the content type for a file path.
pub fn content_type_for(p: &[u8]) -> (r: &'static str)
    ensures
        r@ == content_type_spec(p@),
{
    proof {
        lemma_last_index_bounds(p@, 46);
        lemma_last_index_bounds(p@, 47);
    }
    let n = p.len();
    let d_opt = last_index_exec(p, 46);
    let s_opt = last_index_exec(p, 47);
    assert(match d_opt {
        Some(k) => k < p@.len(),
        None => true,
    });
    assert(match s_opt {
        Some(k) => k < p@.len(),
        None => true,
    });
    let d: usize = match d_opt {
        Some(k) => k,
        None => {
            return "application/octet-stream";
        },
    };
    let after_slash: usize = match s_opt {
        Some(k) => k + 1,
        None => 0,
    };
    if d <= after_slash {
        return "application/octet-stream";
    }
    let e = slice_subrange(p, d + 1, n);
    if bytes_eq(e, "html".as_bytes()) {
        "text/html"
    } else if bytes_eq(e, "css".as_bytes()) {
        "text/css"
    } else if bytes_eq(e, "js".as_bytes()) {
        "application/javascript"
    } else if bytes_eq(e, "jpg".as_bytes()) || bytes_eq(e, "jpeg".as_bytes()) {
        "image/jpeg"
    } else if bytes_eq(e, "png".as_bytes()) {
        "image/png"
    } else if bytes_eq(e, "gif".as_bytes()) {
        "image/gif"
    } else {
        "application/octet-stream"
    }
}

} // verus!
