use vstd::prelude::*;
use vstd::slice::{slice_subrange, slice_to_vec};

verus! {

// Byte constants of the request grammar: SP = 32, CR = 13, LF = 10, colon = 58.
/// A byte that may appear in a method or header name: the HTTP token characters
/// (letters, digits, and ! # $ % & ' * + - . ^ _ ` | ~).
pub open spec fn is_token_byte(b: u8) -> bool {
    (48 <= b && b <= 57) || (65 <= b && b <= 90) || (97 <= b && b <= 122) || b == 33 || (35 <= b
        && b <= 39) || b == 42 || b == 43 || b == 45 || b == 46 || b == 94 || b == 95 || b == 96
        || b == 124 || b == 126
}

/// A byte that may appear in a request path: any visible ASCII character.
pub open spec fn is_path_byte(b: u8) -> bool {
    33 <= b && b <= 126
}

/// A byte of optional whitespace after the colon of a header.
pub open spec fn is_ows_byte(b: u8) -> bool {
    b == 32 || b == 9
}

/// A byte that may appear in a header value: horizontal tab, printable ASCII,
/// or a byte above the ASCII range.
pub open spec fn is_value_byte(b: u8) -> bool {
    b == 9 || (32 <= b && b <= 126) || b >= 128
}

/// The classes of bytes the scanner can run over.
#[derive(Clone, Copy)]
pub enum ByteClass {
    Token,
    Path,
    Ows,
    Value,
}

pub open spec fn byte_in_class(k: ByteClass, b: u8) -> bool {
    match k {
        ByteClass::Token => is_token_byte(b),
        ByteClass::Path => is_path_byte(b),
        ByteClass::Ows => is_ows_byte(b),
        ByteClass::Value => is_value_byte(b),
    }
}

/// The first position at or after `i` whose byte is not in class `k`
/// (the end of the input if every byte from `i` on is in the class).
pub open spec fn scan(s: Seq<u8>, i: int, k: ByteClass) -> int
    decreases s.len() - i,
        when 0 <= i <= s.len()
{
    if i >= s.len() {
        i
    } else if byte_in_class(k, s[i]) {
        scan(s, i + 1, k)
    } else {
        i
    }
}

pub proof fn lemma_scan(s: Seq<u8>, i: int, k: ByteClass)
    requires
        0 <= i <= s.len(),
    ensures
        i <= scan(s, i, k) <= s.len(),
        forall|j: int| i <= j < scan(s, i, k) ==> byte_in_class(k, s[j]),
        scan(s, i, k) < s.len() ==> !byte_in_class(k, s[scan(s, i, k)]),
    decreases s.len() - i,
{
    if i < s.len() && byte_in_class(k, s[i]) {
        lemma_scan(s, i + 1, k);
    }
}

fn byte_in_class_exec(k: ByteClass, b: u8) -> (r: bool)
    ensures
        r == byte_in_class(k, b),
{
    match k {
        ByteClass::Token => (48 <= b && b <= 57) || (65 <= b && b <= 90) || (97 <= b && b <= 122)
            || b == 33 || (35 <= b && b <= 39) || b == 42 || b == 43 || b == 45 || b == 46 || b
            == 94 || b == 95 || b == 96 || b == 124 || b == 126,
        ByteClass::Path => 33 <= b && b <= 126,
        ByteClass::Ows => b == 32 || b == 9,
        ByteClass::Value => b == 9 || (32 <= b && b <= 126) || b >= 128,
    }
}

fn scan_bytes(s: &[u8], from: usize, k: ByteClass) -> (r: usize)
    requires
        from <= s@.len(),
    ensures
        r == scan(s@, from as int, k),
{
    let mut i: usize = from;
    loop
        invariant
            from <= i <= s@.len(),
            scan(s@, from as int, k) == scan(s@, i as int, k),
        decreases s@.len() - i,
    {
        if i == s.len() {
            return i;
        }
        if !byte_in_class_exec(k, s[i]) {
            return i;
        }
        proof {
            assert(scan(s@, i as int, k) == scan(s@, i as int + 1, k));
        }
        i += 1;
    }
}

/// The byte expected at offset `k` of the version-and-line-end part
/// `HTTP/1.d CR LF` that follows the path (d is 0 or 1).
pub open spec fn version_byte_ok(k: int, b: u8) -> bool {
    if k == 0 {
        b == 72
    } else if k == 1 {
        b == 84
    } else if k == 2 {
        b == 84
    } else if k == 3 {
        b == 80
    } else if k == 4 {
        b == 47
    } else if k == 5 {
        b == 49
    } else if k == 6 {
        b == 46
    } else if k == 7 {
        b == 48 || b == 49
    } else if k == 8 {
        b == 13
    } else {
        b == 10
    }
}

fn version_byte_ok_exec(k: usize, b: u8) -> (r: bool)
    ensures
        r == version_byte_ok(k as int, b),
{
    if k == 0 {
        b == 72
    } else if k == 1 {
        b == 84
    } else if k == 2 {
        b == 84
    } else if k == 3 {
        b == 80
    } else if k == 4 {
        b == 47
    } else if k == 5 {
        b == 49
    } else if k == 6 {
        b == 46
    } else if k == 7 {
        b == 48 || b == 49
    } else if k == 8 {
        b == 13
    } else {
        b == 10
    }
}

/// Every version byte that is present in the input agrees with the expected
/// `HTTP/1.d CR LF` bytes starting at position `v`.
pub open spec fn version_all_ok(s: Seq<u8>, v: int) -> bool {
    forall|k: int| 0 <= k < 10 && v + k < s.len() ==> version_byte_ok(k, #[trigger] s[v + k])
}

/// Mathematical model of a parsed request.
pub struct SpecRequest {
    pub method: Seq<u8>,
    pub path: Seq<u8>,
    pub headers: Seq<(Seq<u8>, Seq<u8>)>,
}

/// Mathematical model of a parse result.
pub enum SpecParse {
    Complete(SpecRequest),
    Incomplete,
    Malformed,
}

/// The largest number of headers a request may carry.
pub open spec fn max_headers() -> int {
    64
}

/// Parse the header section starting at position `i`, with `n` headers already
/// taken and collected in `acc`: a lone CRLF ends the request, a further header
/// line is `name : optional-spaces value CR LF`, and running out of input while
/// everything so far is well formed is an incomplete request.
pub open spec fn parse_headers_spec(
    s: Seq<u8>,
    i: int,
    n: int,
    acc: Seq<(Seq<u8>, Seq<u8>)>,
    m: Seq<u8>,
    p: Seq<u8>,
) -> SpecParse
    decreases s.len() - i,
        when 0 <= i <= s.len()
{
    if i >= s.len() {
        SpecParse::Incomplete
    } else if s[i] == 13 {
        if i + 1 >= s.len() {
            SpecParse::Incomplete
        } else if s[i + 1] == 10 {
            SpecParse::Complete(SpecRequest { method: m, path: p, headers: acc })
        } else {
            SpecParse::Malformed
        }
    } else if n >= max_headers() {
        SpecParse::Malformed
    } else {
        let n_end = scan(s, i, ByteClass::Token);
        proof {
            lemma_scan(s, i, ByteClass::Token);
        }
        if n_end >= s.len() {
            SpecParse::Incomplete
        } else if n_end == i {
            SpecParse::Malformed
        } else if s[n_end] != 58 {
            SpecParse::Malformed
        } else {
            let w = scan(s, n_end + 1, ByteClass::Ows);
            proof {
                lemma_scan(s, n_end + 1, ByteClass::Ows);
            }
            let v_end = scan(s, w, ByteClass::Value);
            proof {
                lemma_scan(s, w, ByteClass::Value);
            }
            if v_end >= s.len() {
                SpecParse::Incomplete
            } else if s[v_end] != 13 {
                SpecParse::Malformed
            } else if v_end + 1 >= s.len() {
                SpecParse::Incomplete
            } else if s[v_end + 1] != 10 {
                SpecParse::Malformed
            } else {
                parse_headers_spec(
                    s,
                    v_end + 2,
                    n + 1,
                    acc.push((s.subrange(i, n_end), s.subrange(w, v_end))),
                    m,
                    p,
                )
            }
        }
    }
}

/// Parse a whole request buffer: request line `METHOD SP PATH SP HTTP/1.d CR LF`,
/// then the header section. The result is the structured request, or Incomplete
/// when the input is a well-formed but unfinished prefix, or Malformed otherwise.
pub open spec fn parse_spec(s: Seq<u8>) -> SpecParse {
    let m_end = scan(s, 0, ByteClass::Token);
    if m_end == s.len() {
        SpecParse::Incomplete
    } else if m_end == 0 {
        SpecParse::Malformed
    } else if s[m_end] != 32 {
        SpecParse::Malformed
    } else {
        let p_start = m_end + 1;
        let p_end = scan(s, p_start, ByteClass::Path);
        if p_end == s.len() {
            SpecParse::Incomplete
        } else if p_end == p_start {
            SpecParse::Malformed
        } else if s[p_end] != 32 {
            SpecParse::Malformed
        } else {
            let v = p_end + 1;
            if !version_all_ok(s, v) {
                SpecParse::Malformed
            } else if v + 10 > s.len() {
                SpecParse::Incomplete
            } else {
                parse_headers_spec(
                    s,
                    v + 10,
                    0,
                    Seq::empty(),
                    s.subrange(0, m_end),
                    s.subrange(p_start, p_end),
                )
            }
        }
    }
}

/// A request parsed from the buffer: method, path, and the headers in order.
pub struct ParsedRequest {
    pub method: Vec<u8>,
    pub path: Vec<u8>,
    pub headers: Vec<(Vec<u8>, Vec<u8>)>,
}

impl View for ParsedRequest {
    type V = SpecRequest;

    open spec fn view(&self) -> SpecRequest {
        SpecRequest { method: self.method@, path: self.path@, headers: self.headers.deep_view() }
    }
}

/// The outcome of parsing one read buffer.
pub enum ParseOutcome {
    Complete(ParsedRequest),
    Incomplete,
    Malformed,
}

impl View for ParseOutcome {
    type V = SpecParse;

    open spec fn view(&self) -> SpecParse {
        match self {
            ParseOutcome::Complete(req) => SpecParse::Complete(req@),
            ParseOutcome::Incomplete => SpecParse::Incomplete,
            ParseOutcome::Malformed => SpecParse::Malformed,
        }
    }
}

/// Parse the bytes of one read from the socket.
#[verifier::loop_isolation(false)]
pub fn parse_request(buf: &[u8]) -> (r: ParseOutcome)
    ensures
        r@ == parse_spec(buf@),
{
    let m_end = scan_bytes(buf, 0, ByteClass::Token);
    proof {
        lemma_scan(buf@, 0, ByteClass::Token);
    }
    if m_end == buf.len() {
        return ParseOutcome::Incomplete;
    }
    if m_end == 0 {
        return ParseOutcome::Malformed;
    }
    if buf[m_end] != 32 {
        return ParseOutcome::Malformed;
    }
    let p_start = m_end + 1;
    let p_end = scan_bytes(buf, p_start, ByteClass::Path);
    proof {
        lemma_scan(buf@, p_start as int, ByteClass::Path);
    }
    if p_end == buf.len() {
        return ParseOutcome::Incomplete;
    }
    if p_end == p_start {
        return ParseOutcome::Malformed;
    }
    if buf[p_end] != 32 {
        return ParseOutcome::Malformed;
    }
    let v = p_end + 1;
    let mut k: usize = 0;
    while k < 10 && k < buf.len() - v
        invariant
            k <= 10,
            v + k <= buf.len(),
            forall|j: int| 0 <= j < k ==> version_byte_ok(j, #[trigger] buf@[v + j]),
        decreases 10 - k,
    {
        if !version_byte_ok_exec(k, buf[v + k]) {
            assert(!version_all_ok(buf@, v as int));
            return ParseOutcome::Malformed;
        }
        k += 1;
    }
    assert(version_all_ok(buf@, v as int));
    if k < 10 {
        assert(v + 10 > buf@.len());
        return ParseOutcome::Incomplete;
    }
    assert(v + 10 <= buf@.len());
    let hdr_start = v + 10;
    let ghost m_seq = buf@.subrange(0, m_end as int);
    let ghost p_seq = buf@.subrange(p_start as int, p_end as int);
    let mut i: usize = hdr_start;
    let mut count: usize = 0;
    let mut headers: Vec<(Vec<u8>, Vec<u8>)> = Vec::new();
    proof {
        assert(headers.deep_view() =~= Seq::<(Seq<u8>, Seq<u8>)>::empty());
    }
    loop
        invariant
            i <= buf@.len(),
            count == headers@.len(),
            parse_spec(buf@) == parse_headers_spec(
                buf@,
                i as int,
                count as int,
                headers.deep_view(),
                m_seq,
                p_seq,
            ),
            m_end < buf@.len(),
            p_start <= p_end < buf@.len(),
            m_seq == buf@.subrange(0, m_end as int),
            p_seq == buf@.subrange(p_start as int, p_end as int),
        decreases buf@.len() - i,
    {
        if i == buf.len() {
            return ParseOutcome::Incomplete;
        }
        if buf[i] == 13 {
            if i + 1 == buf.len() {
                return ParseOutcome::Incomplete;
            }
            if buf[i + 1] == 10 {
                let method = slice_to_vec(slice_subrange(buf, 0, m_end));
                let path = slice_to_vec(slice_subrange(buf, p_start, p_end));
                let req = ParsedRequest { method, path, headers };
                return ParseOutcome::Complete(req);
            }
            return ParseOutcome::Malformed;
        }
        if count >= 64 {
            return ParseOutcome::Malformed;
        }
        let n_end = scan_bytes(buf, i, ByteClass::Token);
        proof {
            lemma_scan(buf@, i as int, ByteClass::Token);
        }
        if n_end == buf.len() {
            return ParseOutcome::Incomplete;
        }
        if n_end == i {
            return ParseOutcome::Malformed;
        }
        if buf[n_end] != 58 {
            return ParseOutcome::Malformed;
        }
        let w = scan_bytes(buf, n_end + 1, ByteClass::Ows);
        proof {
            lemma_scan(buf@, n_end + 1, ByteClass::Ows);
        }
        let v_end = scan_bytes(buf, w, ByteClass::Value);
        proof {
            lemma_scan(buf@, w as int, ByteClass::Value);
        }
        if v_end == buf.len() {
            return ParseOutcome::Incomplete;
        }
        if buf[v_end] != 13 {
            return ParseOutcome::Malformed;
        }
        if v_end + 1 == buf.len() {
            return ParseOutcome::Incomplete;
        }
        if buf[v_end + 1] != 10 {
            return ParseOutcome::Malformed;
        }
        let name = slice_to_vec(slice_subrange(buf, i, n_end));
        let value = slice_to_vec(slice_subrange(buf, w, v_end));
        let ghost pre = headers.deep_view();
        headers.push((name, value));
        proof {
            assert(headers.deep_view() =~~= pre.push(
                (buf@.subrange(i as int, n_end as int), buf@.subrange(w as int, v_end as int)),
            ));
        }
        i = v_end + 2;
        count += 1;
    }
}

} // verus!
